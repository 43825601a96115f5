use erm::dtos::column_groups as group_dto;
use erm::dtos::diagram::Diagram;
use erm::dtos::diagram_walkers::{Column, Connections, NormalColumn};
use erm::entities;
use erm::open;

const DOC: &str = "<diagram><diagram_settings><database>MySQL</database></diagram_settings><diagram_walkers><table><physical_name>A</physical_name><logical_name>L</logical_name><description>D</description><height>10</height><width>20</width><font_name>Ubuntu</font_name><font_size>9</font_size><x>1</x><y>2</y><color><r>1</r><g>2</g><b>3</b></color><connections><relationship><name>FK</name><source>table.B</source><target>table.A</target><fk_columns><fk_column><fk_column_name>B_ID</fk_column_name></fk_column></fk_columns><parent_cardinality>1</parent_cardinality><child_cardinality>0..n</child_cardinality><on_delete_action>RESTRICT</on_delete_action><on_update_action>CASCADE</on_update_action></relationship></connections><columns><normal_column><physical_name>B_ID</physical_name><type>bigint</type><not_null>true</not_null><length>8</length></normal_column><column_group>G</column_group></columns></table></diagram_walkers><column_groups><column_group><column_group_name>G</column_group_name><columns><normal_column><physical_name>X</physical_name><logical_name>XL</logical_name><type>int</type><unsigned>true</unsigned></normal_column></columns></column_group></column_groups></diagram>";

#[test]
fn projection_keeps_every_field() {
    let entity = open(DOC).unwrap();
    let dto = Diagram::from(entity.clone());
    assert_eq!(dto.diagram_settings.database, entity.diagram_settings.database);
    let tables = dto.diagram_walkers.tables.as_ref().unwrap();
    assert_eq!(tables.len(), 1);
    let t = &tables[0];
    let e = &entity.diagram_walkers.tables[0];
    assert_eq!(t.physical_name, e.physical_name);
    assert_eq!(t.logical_name, e.logical_name);
    assert_eq!(t.description, "D");
    assert_eq!((t.height, t.width, t.x, t.y, t.font_size), (10, 20, 1, 2, 9));
    assert_eq!((t.color.r, t.color.g, t.color.b), (1, 2, 3));
    let rels = t.connections.relationships.as_ref().unwrap();
    assert_eq!(rels[0].name, "FK");
    assert_eq!(rels[0].on_update_action, "CASCADE");
    assert!(!rels[0].reference_for_pk);
    assert_eq!(rels[0].fk_columns.fk_column[0].fk_column_name, "B_ID");
    let items = t.columns.items.as_ref().unwrap();
    assert_eq!(
        items[0],
        Column::Normal(NormalColumn {
            physical_name: "B_ID".to_string(),
            column_type: Some("bigint".to_string()),
            length: Some(8),
            unsigned: Some(false),
            not_null: Some(true),
            unique_key: Some(false),
            primary_key: Some(false),
            auto_increment: Some(false),
            ..Default::default()
        })
    );
    assert_eq!(items[1], Column::Group("G".to_string()));
    assert_eq!(t.compound_unique_key_list.compound_unique_keys, Some(vec![]));
    let groups = dto.column_groups.column_groups.as_ref().unwrap();
    assert_eq!(groups[0].column_group_name, "G");
    assert_eq!(
        groups[0].columns.normal_columns.as_ref().unwrap()[0],
        group_dto::NormalColumn {
            physical_name: "X".to_string(),
            logical_name: Some("XL".to_string()),
            column_type: "int".to_string(),
            not_null: Some(false),
            unique_key: Some(false),
            unsigned: Some(true),
        }
    );
}

#[test]
fn empty_lists_project_as_present() {
    let entity = entities::Connections { relationships: vec![] };
    assert_eq!(Connections::from(entity).relationships, Some(vec![]));
    let groups = entities::ColumnGroups { column_groups: vec![] };
    assert_eq!(group_dto::ColumnGroups::from(groups).column_groups, Some(vec![]));
}
