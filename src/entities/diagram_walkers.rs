use vstd::prelude::*;

use crate::entities::opt_str;

verus! {

/// Fill colour of a table node.
#[derive(Debug, Clone, Copy, PartialEq, Eq, Structural)]
pub struct Color {
    pub r: u8,
    pub g: u8,
    pub b: u8,
}

/// One column of a foreign key, named on the child table.
#[derive(Debug, Clone, PartialEq, Eq)]
pub struct FkColumn {
    pub fk_column_name: String,
}

/// The columns that make up a foreign key, in file order.
#[derive(Debug, Clone, PartialEq, Eq, Default)]
pub struct FkColumns {
    pub fk_column: Vec<FkColumn>,
}

impl View for FkColumns {
    type V = Seq<Seq<char>>;

    open spec fn view(&self) -> Seq<Seq<char>> {
        self.fk_column@.map_values(|c: FkColumn| c.fk_column_name@)
    }
}

/// A directed foreign-key edge between two tables.
#[derive(Debug, Clone, PartialEq, Eq)]
pub struct Relationship {
    pub name: String,
    pub source: String,
    pub target: String,
    pub fk_columns: FkColumns,
    pub parent_cardinality: String,
    pub child_cardinality: String,
    pub reference_for_pk: bool,
    pub on_delete_action: String,
    pub on_update_action: String,
}

pub ghost struct RelationshipModel {
    pub name: Seq<char>,
    pub source: Seq<char>,
    pub target: Seq<char>,
    pub fk_columns: Seq<Seq<char>>,
    pub parent_cardinality: Seq<char>,
    pub child_cardinality: Seq<char>,
    pub reference_for_pk: bool,
    pub on_delete_action: Seq<char>,
    pub on_update_action: Seq<char>,
}

impl View for Relationship {
    type V = RelationshipModel;

    open spec fn view(&self) -> RelationshipModel {
        RelationshipModel {
            name: self.name@,
            source: self.source@,
            target: self.target@,
            fk_columns: self.fk_columns@,
            parent_cardinality: self.parent_cardinality@,
            child_cardinality: self.child_cardinality@,
            reference_for_pk: self.reference_for_pk,
            on_delete_action: self.on_delete_action@,
            on_update_action: self.on_update_action@,
        }
    }
}

/// The relationships for which a table is the subject node; possibly none.
#[derive(Debug, Clone, PartialEq, Eq, Default)]
pub struct Connections {
    pub relationships: Vec<Relationship>,
}

impl View for Connections {
    type V = Seq<RelationshipModel>;

    open spec fn view(&self) -> Seq<RelationshipModel> {
        self.relationships@.map_values(|r: Relationship| r@)
    }
}

/// A concrete column of a table. Absent optional fields stay `None`.
#[derive(Debug, Clone, PartialEq, Eq, Default)]
pub struct NormalColumn {
    pub physical_name: String,
    pub logical_name: Option<String>,
    pub description: Option<String>,
    pub column_type: Option<String>,
    pub length: Option<u16>,
    pub decimal: Option<u16>,
    pub unsigned: bool,
    pub not_null: bool,
    pub unique_key: bool,
    pub default_value: Option<String>,
    pub primary_key: bool,
    pub auto_increment: bool,
    pub referred_column: Option<String>,
    pub relationship: Option<String>,
}

pub ghost struct NormalColumnModel {
    pub physical_name: Seq<char>,
    pub logical_name: Option<Seq<char>>,
    pub description: Option<Seq<char>>,
    pub column_type: Option<Seq<char>>,
    pub length: Option<u16>,
    pub decimal: Option<u16>,
    pub unsigned: bool,
    pub not_null: bool,
    pub unique_key: bool,
    pub default_value: Option<Seq<char>>,
    pub primary_key: bool,
    pub auto_increment: bool,
    pub referred_column: Option<Seq<char>>,
    pub relationship: Option<Seq<char>>,
}

impl View for NormalColumn {
    type V = NormalColumnModel;

    open spec fn view(&self) -> NormalColumnModel {
        NormalColumnModel {
            physical_name: self.physical_name@,
            logical_name: opt_str(self.logical_name),
            description: opt_str(self.description),
            column_type: opt_str(self.column_type),
            length: self.length,
            decimal: self.decimal,
            unsigned: self.unsigned,
            not_null: self.not_null,
            unique_key: self.unique_key,
            default_value: opt_str(self.default_value),
            primary_key: self.primary_key,
            auto_increment: self.auto_increment,
            referred_column: opt_str(self.referred_column),
            relationship: opt_str(self.relationship),
        }
    }
}

/// One entry of a table's column list: a concrete column, or a reference to
/// a diagram-level column group spliced in at this position.
#[derive(Debug, Clone, PartialEq, Eq)]
pub enum Column {
    Normal(NormalColumn),
    Group(String),
}

pub ghost enum ColumnModel {
    Normal(NormalColumnModel),
    Group(Seq<char>),
}

impl View for Column {
    type V = ColumnModel;

    open spec fn view(&self) -> ColumnModel {
        match self {
            Column::Normal(c) => ColumnModel::Normal(c@),
            Column::Group(g) => ColumnModel::Group(g@),
        }
    }
}

/// A table's column list, in file order.
#[derive(Debug, Clone, PartialEq, Eq, Default)]
pub struct Columns {
    pub items: Vec<Column>,
}

impl View for Columns {
    type V = Seq<ColumnModel>;

    open spec fn view(&self) -> Seq<ColumnModel> {
        self.items@.map_values(|c: Column| c@)
    }
}

/// A named set of column ids that are unique together.
#[derive(Debug, Clone, PartialEq, Eq)]
pub struct CompoundUniqueKey {
    pub name: String,
    pub column_ids: Vec<String>,
}

pub ghost struct CompoundUniqueKeyModel {
    pub name: Seq<char>,
    pub column_ids: Seq<Seq<char>>,
}

impl View for CompoundUniqueKey {
    type V = CompoundUniqueKeyModel;

    open spec fn view(&self) -> CompoundUniqueKeyModel {
        CompoundUniqueKeyModel {
            name: self.name@,
            column_ids: self.column_ids@.map_values(|s: String| s@),
        }
    }
}

/// The compound unique keys of a table; possibly none.
#[derive(Debug, Clone, PartialEq, Eq, Default)]
pub struct CompoundUniqueKeyList {
    pub compound_unique_keys: Vec<CompoundUniqueKey>,
}

impl View for CompoundUniqueKeyList {
    type V = Seq<CompoundUniqueKeyModel>;

    open spec fn view(&self) -> Seq<CompoundUniqueKeyModel> {
        self.compound_unique_keys@.map_values(|k: CompoundUniqueKey| k@)
    }
}

/// A table node of the diagram.
#[derive(Debug, Clone, PartialEq, Eq)]
pub struct Table {
    pub physical_name: String,
    pub logical_name: String,
    pub description: String,
    pub height: u16,
    pub width: u16,
    pub font_name: String,
    pub font_size: u16,
    pub x: u16,
    pub y: u16,
    pub color: Color,
    pub connections: Connections,
    pub columns: Columns,
    pub primary_key_name: Option<String>,
    pub table_constraint: Option<String>,
    pub compound_unique_key_list: CompoundUniqueKeyList,
}

pub ghost struct TableModel {
    pub physical_name: Seq<char>,
    pub logical_name: Seq<char>,
    pub description: Seq<char>,
    pub height: u16,
    pub width: u16,
    pub font_name: Seq<char>,
    pub font_size: u16,
    pub x: u16,
    pub y: u16,
    pub color: Color,
    pub connections: Seq<RelationshipModel>,
    pub columns: Seq<ColumnModel>,
    pub primary_key_name: Option<Seq<char>>,
    pub table_constraint: Option<Seq<char>>,
    pub compound_unique_keys: Seq<CompoundUniqueKeyModel>,
}

impl View for Table {
    type V = TableModel;

    open spec fn view(&self) -> TableModel {
        TableModel {
            physical_name: self.physical_name@,
            logical_name: self.logical_name@,
            description: self.description@,
            height: self.height,
            width: self.width,
            font_name: self.font_name@,
            font_size: self.font_size,
            x: self.x,
            y: self.y,
            color: self.color,
            connections: self.connections@,
            columns: self.columns@,
            primary_key_name: opt_str(self.primary_key_name),
            table_constraint: opt_str(self.table_constraint),
            compound_unique_keys: self.compound_unique_key_list@,
        }
    }
}

/// The tables of a diagram, in file order.
#[derive(Debug, Clone, PartialEq, Eq)]
pub struct DiagramWalkers {
    pub tables: Vec<Table>,
}

impl View for DiagramWalkers {
    type V = Seq<TableModel>;

    open spec fn view(&self) -> Seq<TableModel> {
        self.tables@.map_values(|t: Table| t@)
    }
}

} // verus!
