use erm::ersflute_io::{open, Diagram, DiagramSettings};

const TESTERD: &str = r#"<?xml version="1.0" encoding="UTF-8"?>
<diagram>
	<presenter>ERFlute</presenter>
	<diagram_settings>
		<database>MySQL</database>
		<capital>true</capital>
		<notation>IE</notation>
	</diagram_settings>
	<diagram_walkers>
		<table>
			<physical_name>MEMBERS</physical_name>
			<logical_name>会員</logical_name>
			<description></description>
			<height>108</height>
			<width>194</width>
			<font_name>Ubuntu</font_name>
			<font_size>9</font_size>
			<x>160</x>
			<y>106</y>
			<color>
				<r>128</r>
				<g>128</g>
				<b>192</b>
			</color>
			<connections/>
			<columns>
				<normal_column>
					<physical_name>MEMBER_ID</physical_name>
					<logical_name>会員ID</logical_name>
					<type>bigint</type>
					<unsigned>true</unsigned>
					<not_null>true</not_null>
					<unique_key>false</unique_key>
					<primary_key>true</primary_key>
					<auto_increment>true</auto_increment>
				</normal_column>
				<normal_column>
					<physical_name>LAST_NAME</physical_name>
					<logical_name>苗字</logical_name>
					<type>varchar(n)</type>
					<length>32</length>
					<unsigned>false</unsigned>
					<not_null>true</not_null>
					<unique_key>false</unique_key>
					<primary_key>false</primary_key>
					<auto_increment>false</auto_increment>
				</normal_column>
				<normal_column>
					<physical_name>FIRST_NAME</physical_name>
					<logical_name>名前</logical_name>
					<type>varchar(n)</type>
					<length>32</length>
					<unsigned>false</unsigned>
					<not_null>true</not_null>
					<unique_key>false</unique_key>
					<primary_key>false</primary_key>
					<auto_increment>false</auto_increment>
				</normal_column>
				<column_group>COMMON</column_group>
			</columns>
		</table>
		<table>
			<physical_name>MEMBER_PROFILES</physical_name>
			<logical_name>会員プロフィール</logical_name>
			<description></description>
			<height>161</height>
			<width>245</width>
			<font_name>Ubuntu</font_name>
			<font_size>9</font_size>
			<x>502</x>
			<y>103</y>
			<color>
				<r>128</r>
				<g>128</g>
				<b>192</b>
			</color>
			<connections>
				<relationship>
					<name>FK_MEMBER_PROFILES_MEMBERS</name>
					<source>table.MEMBERS</source>
					<target>table.MEMBER_PROFILES</target>
					<fk_columns>
						<fk_column>
							<fk_column_name>MEMBER_ID</fk_column_name>
						</fk_column>
					</fk_columns>
					<parent_cardinality>1</parent_cardinality>
					<child_cardinality>0..1</child_cardinality>
					<reference_for_pk>true</reference_for_pk>
					<on_delete_action>RESTRICT</on_delete_action>
					<on_update_action>RESTRICT</on_update_action>
				</relationship>
				<relationship>
					<name>FK_MEMBER_PROFILES_MST_GENDER</name>
					<source>table.MST_GENDER</source>
					<target>table.MEMBER_PROFILES</target>
					<fk_columns>
						<fk_column>
							<fk_column_name>GENDER_ID</fk_column_name>
						</fk_column>
					</fk_columns>
					<parent_cardinality>1</parent_cardinality>
					<child_cardinality>0..n</child_cardinality>
					<reference_for_pk>true</reference_for_pk>
					<on_delete_action>RESTRICT</on_delete_action>
					<on_update_action>RESTRICT</on_update_action>
				</relationship>
			</connections>
			<columns>
				<normal_column>
					<physical_name>MEMBER_PROFILE_ID</physical_name>
					<logical_name>会員プロフィールID</logical_name>
					<type>bigint</type>
					<unsigned>true</unsigned>
					<not_null>true</not_null>
					<unique_key>false</unique_key>
					<primary_key>true</primary_key>
					<auto_increment>true</auto_increment>
				</normal_column>
				<normal_column>
					<physical_name>MEMBER_ID</physical_name>
					<unsigned>false</unsigned>
					<not_null>true</not_null>
					<unique_key>false</unique_key>
					<primary_key>false</primary_key>
					<auto_increment>false</auto_increment>
					<referred_column>table.MEMBERS.MEMBER_ID</referred_column>
					<relationship>FK_MEMBER_PROFILES_MEMBERS</relationship>
				</normal_column>
				<normal_column>
					<physical_name>SELF_INTRODUCTION</physical_name>
					<logical_name>自己紹介</logical_name>
					<type>text</type>
					<unsigned>false</unsigned>
					<not_null>true</not_null>
					<unique_key>false</unique_key>
					<primary_key>false</primary_key>
					<auto_increment>false</auto_increment>
				</normal_column>
				<normal_column>
					<physical_name>PROFILE_IMG_URL</physical_name>
					<logical_name>プロフィール画像URL</logical_name>
					<type>varchar(n)</type>
					<length>2048</length>
					<unsigned>false</unsigned>
					<not_null>true</not_null>
					<unique_key>false</unique_key>
					<primary_key>false</primary_key>
					<auto_increment>false</auto_increment>
				</normal_column>
				<normal_column>
					<physical_name>GENDER_ID</physical_name>
					<unsigned>false</unsigned>
					<not_null>false</not_null>
					<unique_key>false</unique_key>
					<primary_key>false</primary_key>
					<auto_increment>false</auto_increment>
					<referred_column>table.MST_GENDER.GENDER_ID</referred_column>
					<relationship>FK_MEMBER_PROFILES_MST_GENDER</relationship>
				</normal_column>
				<column_group>COMMON</column_group>
			</columns>
		</table>
		<table>
			<physical_name>MST_GENDER</physical_name>
			<logical_name>マスター性別</logical_name>
			<description></description>
			<height>75</height>
			<width>190</width>
			<font_name>Ubuntu</font_name>
			<font_size>9</font_size>
			<x>829</x>
			<y>99</y>
			<color>
				<r>128</r>
				<g>128</g>
				<b>192</b>
			</color>
			<connections/>
			<columns>
				<normal_column>
					<physical_name>GENDER_ID</physical_name>
					<logical_name>性別ID</logical_name>
					<type>integer</type>
					<unsigned>true</unsigned>
					<not_null>true</not_null>
					<unique_key>false</unique_key>
					<primary_key>true</primary_key>
					<auto_increment>true</auto_increment>
				</normal_column>
				<normal_column>
					<physical_name>GENDER</physical_name>
					<logical_name>性別</logical_name>
					<description>「男性」または「女性」</description>
					<type>character(n)</type>
					<length>2</length>
					<unsigned>false</unsigned>
					<not_null>true</not_null>
					<unique_key>false</unique_key>
					<primary_key>false</primary_key>
					<auto_increment>false</auto_increment>
				</normal_column>
			</columns>
		</table>
		<table>
			<physical_name>POSTS</physical_name>
			<logical_name>投稿</logical_name>
			<description></description>
			<height>233</height>
			<width>215</width>
			<font_name>Ubuntu</font_name>
			<font_size>9</font_size>
			<x>159</x>
			<y>364</y>
			<color>
				<r>128</r>
				<g>128</g>
				<b>192</b>
			</color>
			<connections>
				<relationship>
					<name>FK_MEMBER_POSTS_MEMBERS</name>
					<source>table.MEMBERS</source>
					<target>table.POSTS</target>
					<fk_columns>
						<fk_column>
							<fk_column_name>MEMBER_ID</fk_column_name>
						</fk_column>
					</fk_columns>
					<parent_cardinality>0..1</parent_cardinality>
					<child_cardinality>0..n</child_cardinality>
					<reference_for_pk>true</reference_for_pk>
					<on_delete_action>RESTRICT</on_delete_action>
					<on_update_action>RESTRICT</on_update_action>
				</relationship>
			</connections>
			<columns>
				<normal_column>
					<physical_name>POST_ID</physical_name>
					<logical_name>投稿ID</logical_name>
					<type>bigint</type>
					<unsigned>true</unsigned>
					<not_null>true</not_null>
					<unique_key>false</unique_key>
					<primary_key>true</primary_key>
					<auto_increment>true</auto_increment>
				</normal_column>
				<normal_column>
					<physical_name>MEMBER_ID</physical_name>
					<unsigned>false</unsigned>
					<not_null>true</not_null>
					<unique_key>false</unique_key>
					<primary_key>false</primary_key>
					<auto_increment>false</auto_increment>
					<referred_column>table.MEMBERS.MEMBER_ID</referred_column>
					<relationship>FK_MEMBER_POSTS_MEMBERS</relationship>
				</normal_column>
				<normal_column>
					<physical_name>TITLE</physical_name>
					<logical_name>タイトル</logical_name>
					<type>varchar(n)</type>
					<length>128</length>
					<unsigned>false</unsigned>
					<not_null>true</not_null>
					<unique_key>false</unique_key>
					<primary_key>false</primary_key>
					<auto_increment>false</auto_increment>
				</normal_column>
				<normal_column>
					<physical_name>TEXT</physical_name>
					<logical_name>本文</logical_name>
					<type>text</type>
					<unsigned>false</unsigned>
					<not_null>false</not_null>
					<unique_key>false</unique_key>
					<primary_key>false</primary_key>
					<auto_increment>false</auto_increment>
				</normal_column>
				<normal_column>
					<physical_name>IMG_URL</physical_name>
					<logical_name>画像URL</logical_name>
					<type>varchar(n)</type>
					<length>2048</length>
					<unsigned>false</unsigned>
					<not_null>false</not_null>
					<unique_key>false</unique_key>
					<primary_key>false</primary_key>
					<auto_increment>false</auto_increment>
				</normal_column>
				<normal_column>
					<physical_name>VIEW_COUNT</physical_name>
					<logical_name>閲覧数</logical_name>
					<type>bigint</type>
					<unsigned>false</unsigned>
					<not_null>true</not_null>
					<unique_key>false</unique_key>
					<primary_key>false</primary_key>
					<auto_increment>false</auto_increment>
					<default_value>0</default_value>
				</normal_column>
				<normal_column>
					<physical_name>LIKE_COUNT</physical_name>
					<logical_name>いいね数</logical_name>
					<type>bigint</type>
					<unsigned>false</unsigned>
					<not_null>true</not_null>
					<unique_key>false</unique_key>
					<primary_key>false</primary_key>
					<auto_increment>false</auto_increment>
					<default_value>0</default_value>
				</normal_column>
				<normal_column>
					<physical_name>PUBLIC_START_AT</physical_name>
					<logical_name>公開開始時間</logical_name>
					<type>datetime</type>
					<unsigned>false</unsigned>
					<not_null>true</not_null>
					<unique_key>false</unique_key>
					<primary_key>false</primary_key>
					<auto_increment>false</auto_increment>
				</normal_column>
				<normal_column>
					<physical_name>PUBLIC_END_AT</physical_name>
					<logical_name>公開終了時間</logical_name>
					<type>datetime</type>
					<unsigned>false</unsigned>
					<not_null>false</not_null>
					<unique_key>false</unique_key>
					<primary_key>false</primary_key>
					<auto_increment>false</auto_increment>
				</normal_column>
				<normal_column>
					<physical_name>DELETED</physical_name>
					<logical_name>削除済</logical_name>
					<type>boolean</type>
					<unsigned>false</unsigned>
					<not_null>true</not_null>
					<unique_key>false</unique_key>
					<primary_key>false</primary_key>
					<auto_increment>false</auto_increment>
					<default_value>FALSE</default_value>
				</normal_column>
				<column_group>COMMON</column_group>
			</columns>
		</table>
		<table>
			<physical_name>POST_REPLIES</physical_name>
			<logical_name>投稿返信</logical_name>
			<description></description>
			<height>75</height>
			<width>120</width>
			<font_name>Ubuntu</font_name>
			<font_size>9</font_size>
			<x>782</x>
			<y>391</y>
			<color>
				<r>128</r>
				<g>128</g>
				<b>192</b>
			</color>
			<connections>
				<relationship>
					<name>FK_POST_REPLIES_POST_THREADS</name>
					<source>table.POST_THREADS</source>
					<target>table.POST_REPLIES</target>
					<fk_columns>
						<fk_column>
							<fk_column_name>POST_THREAD_ID</fk_column_name>
						</fk_column>
					</fk_columns>
					<parent_cardinality>1</parent_cardinality>
					<child_cardinality>1..n</child_cardinality>
					<reference_for_pk>true</reference_for_pk>
					<on_delete_action>RESTRICT</on_delete_action>
					<on_update_action>RESTRICT</on_update_action>
				</relationship>
				<relationship>
					<name>FK_POST_REPLIES_MEMBERS</name>
					<source>table.MEMBERS</source>
					<target>table.POST_REPLIES</target>
					<fk_columns>
						<fk_column>
							<fk_column_name>MEMBER_ID</fk_column_name>
						</fk_column>
					</fk_columns>
					<parent_cardinality>0..1</parent_cardinality>
					<child_cardinality>0..n</child_cardinality>
					<reference_for_pk>true</reference_for_pk>
					<on_delete_action>RESTRICT</on_delete_action>
					<on_update_action>RESTRICT</on_update_action>
				</relationship>
			</connections>
			<columns>
				<normal_column>
					<physical_name>POST_REPLY_ID</physical_name>
					<logical_name>投稿返信ID</logical_name>
					<type>bigint</type>
					<unsigned>true</unsigned>
					<not_null>true</not_null>
					<unique_key>false</unique_key>
					<primary_key>true</primary_key>
					<auto_increment>true</auto_increment>
				</normal_column>
				<normal_column>
					<physical_name>POST_THREAD_ID</physical_name>
					<unsigned>false</unsigned>
					<not_null>true</not_null>
					<unique_key>false</unique_key>
					<primary_key>false</primary_key>
					<auto_increment>false</auto_increment>
					<referred_column>table.POST_THREADS.POST_THREAD_ID</referred_column>
					<relationship>FK_POST_REPLIES_POST_THREADS</relationship>
				</normal_column>
				<normal_column>
					<physical_name>MEMBER_ID</physical_name>
					<unsigned>false</unsigned>
					<not_null>true</not_null>
					<unique_key>false</unique_key>
					<primary_key>false</primary_key>
					<auto_increment>false</auto_increment>
					<referred_column>table.MEMBERS.MEMBER_ID</referred_column>
					<relationship>FK_POST_REPLIES_MEMBERS</relationship>
				</normal_column>
				<normal_column>
					<physical_name>TEXT</physical_name>
					<logical_name>本文</logical_name>
					<type>text</type>
					<unsigned>false</unsigned>
					<not_null>true</not_null>
					<unique_key>false</unique_key>
					<primary_key>false</primary_key>
					<auto_increment>false</auto_increment>
				</normal_column>
				<normal_column>
					<physical_name>VIEW_COUNT</physical_name>
					<logical_name>閲覧数</logical_name>
					<type>bigint</type>
					<unsigned>false</unsigned>
					<not_null>true</not_null>
					<unique_key>false</unique_key>
					<primary_key>false</primary_key>
					<auto_increment>false</auto_increment>
					<default_value>0</default_value>
				</normal_column>
				<normal_column>
					<physical_name>LIKE_COUNT</physical_name>
					<logical_name>いいね数</logical_name>
					<type>bigint</type>
					<unsigned>false</unsigned>
					<not_null>true</not_null>
					<unique_key>false</unique_key>
					<primary_key>false</primary_key>
					<auto_increment>false</auto_increment>
					<default_value>0</default_value>
				</normal_column>
				<column_group>COMMON</column_group>
			</columns>
		</table>
		<table>
			<physical_name>POST_THREADS</physical_name>
			<logical_name>投稿スレッド</logical_name>
			<description></description>
			<height>75</height>
			<width>203</width>
			<font_name>Ubuntu</font_name>
			<font_size>9</font_size>
			<x>481</x>
			<y>474</y>
			<color>
				<r>128</r>
				<g>128</g>
				<b>192</b>
			</color>
			<connections>
				<relationship>
					<name>FK_POST_THREADS_MEMBER_POSTS</name>
					<source>table.POSTS</source>
					<target>table.POST_THREADS</target>
					<fk_columns>
						<fk_column>
							<fk_column_name>POST_ID</fk_column_name>
						</fk_column>
					</fk_columns>
					<parent_cardinality>1</parent_cardinality>
					<child_cardinality>0..1</child_cardinality>
					<reference_for_pk>true</reference_for_pk>
					<on_delete_action>RESTRICT</on_delete_action>
					<on_update_action>RESTRICT</on_update_action>
				</relationship>
			</connections>
			<columns>
				<normal_column>
					<physical_name>POST_THREAD_ID</physical_name>
					<logical_name>投稿スレッドID</logical_name>
					<type>bigint</type>
					<unsigned>true</unsigned>
					<not_null>true</not_null>
					<unique_key>false</unique_key>
					<primary_key>true</primary_key>
					<auto_increment>true</auto_increment>
				</normal_column>
				<normal_column>
					<physical_name>POST_ID</physical_name>
					<unsigned>false</unsigned>
					<not_null>true</not_null>
					<unique_key>true</unique_key>
					<primary_key>false</primary_key>
					<auto_increment>false</auto_increment>
					<referred_column>table.POSTS.POST_ID</referred_column>
					<relationship>FK_POST_THREADS_MEMBER_POSTS</relationship>
				</normal_column>
				<column_group>COMMON</column_group>
			</columns>
		</table>
	</diagram_walkers>
	<column_groups>
		<column_group>
			<column_group_name>COMMON</column_group_name>
			<columns>
				<normal_column>
					<physical_name>CREATED_AT</physical_name>
					<logical_name>作成時間</logical_name>
					<type>datetime</type>
					<not_null>true</not_null>
				</normal_column>
				<normal_column>
					<physical_name>CREATED_BY</physical_name>
					<logical_name>作成会員ID</logical_name>
					<type>bigint</type>
					<not_null>true</not_null>
				</normal_column>
				<normal_column>
					<physical_name>UPDATED_AT</physical_name>
					<logical_name>更新時間</logical_name>
					<type>datetime</type>
					<not_null>true</not_null>
				</normal_column>
				<normal_column>
					<physical_name>UPDATED_BY</physical_name>
					<logical_name>更新会員ID</logical_name>
					<type>bigint</type>
					<not_null>true</not_null>
				</normal_column>
			</columns>
		</column_group>
	</column_groups>
</diagram>
"#;

#[test]
fn api_read_test_read_erm_file() {
    let result = open(TESTERD);
    assert!(result.is_ok());
    assert_eq!(
        result.unwrap(),
        Diagram {
            diagram_settings: DiagramSettings {
                database: "MySQL".to_string()
            }
        }
    )
}
