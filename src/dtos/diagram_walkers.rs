//! Transport shape of tables and everything below them.
//!
//! List fields that may be empty in the canonical model are `Option<Vec<_>>`
//! here so that external input may leave them out; a projection of the
//! canonical model always fills them with `Some`, possibly of an empty list.
//! Canonical flags and optional text keep their meaning; flags of column
//! groups are widened to `Option<bool>` and always projected as `Some`.
use vstd::prelude::*;

use crate::entities::diagram_walkers as entity;
use crate::entities::diagram_walkers::{
    ColumnModel, CompoundUniqueKeyModel, NormalColumnModel, RelationshipModel, TableModel,
};
use crate::entities::opt_str;

verus! {

#[derive(Debug, Clone, Copy, PartialEq, Eq, Structural)]
pub struct Color {
    pub r: u8,
    pub g: u8,
    pub b: u8,
}

impl Color {
    pub open spec fn projects(self, e: entity::Color) -> bool {
        self.r == e.r && self.g == e.g && self.b == e.b
    }

    pub fn from(entity: entity::Color) -> (r: Self)
        ensures
            r.projects(entity),
    {
        Color { r: entity.r, g: entity.g, b: entity.b }
    }
}

#[derive(Debug, Clone, PartialEq, Eq)]
pub struct FkColumn {
    pub fk_column_name: String,
}

impl FkColumn {
    pub open spec fn projects(self, e: Seq<char>) -> bool {
        self.fk_column_name@ == e
    }

    pub fn from(entity: entity::FkColumn) -> (r: Self)
        ensures
            r.projects(entity.fk_column_name@),
    {
        FkColumn { fk_column_name: entity.fk_column_name }
    }
}

#[derive(Debug, Clone, PartialEq, Eq, Default)]
pub struct FkColumns {
    pub fk_column: Vec<FkColumn>,
}

impl FkColumns {
    pub open spec fn projects(self, e: Seq<Seq<char>>) -> bool {
        &&& self.fk_column@.len() == e.len()
        &&& forall|i: int| 0 <= i < e.len() ==> (#[trigger] self.fk_column@[i]).projects(e[i])
    }

    pub fn from(entity: entity::FkColumns) -> (r: Self)
        ensures
            r.projects(entity@),
    {
        let ghost src = entity.fk_column@;
        let mut out: Vec<FkColumn> = Vec::new();
        for c in it: entity.fk_column.into_iter()
            invariant
                it.seq() == src,
                out@.len() == it.index(),
                forall|k: int|
                    0 <= k < it.index() ==> (#[trigger] out@[k]).projects(
                        src[k].fk_column_name@,
                    ),
        {
            out.push(FkColumn::from(c));
        }
        FkColumns { fk_column: out }
    }
}

#[derive(Debug, Clone, PartialEq, Eq)]
pub struct Relationship {
    pub name: String,
    pub source: String,
    pub target: String,
    pub fk_columns: FkColumns,
    pub parent_cardinality: String,
    pub child_cardinality: String,
    pub reference_for_pk: bool,
    pub on_delete_action: String,
    pub on_update_action: String,
}

impl Relationship {
    pub open spec fn projects(self, e: RelationshipModel) -> bool {
        &&& self.name@ == e.name
        &&& self.source@ == e.source
        &&& self.target@ == e.target
        &&& self.fk_columns.projects(e.fk_columns)
        &&& self.parent_cardinality@ == e.parent_cardinality
        &&& self.child_cardinality@ == e.child_cardinality
        &&& self.reference_for_pk == e.reference_for_pk
        &&& self.on_delete_action@ == e.on_delete_action
        &&& self.on_update_action@ == e.on_update_action
    }

    pub fn from(entity: entity::Relationship) -> (r: Self)
        ensures
            r.projects(entity@),
    {
        Relationship {
            name: entity.name,
            source: entity.source,
            target: entity.target,
            fk_columns: FkColumns::from(entity.fk_columns),
            parent_cardinality: entity.parent_cardinality,
            child_cardinality: entity.child_cardinality,
            reference_for_pk: entity.reference_for_pk,
            on_delete_action: entity.on_delete_action,
            on_update_action: entity.on_update_action,
        }
    }
}

#[derive(Debug, Clone, PartialEq, Eq, Default)]
pub struct Connections {
    pub relationships: Option<Vec<Relationship>>,
}

impl Connections {
    pub open spec fn projects(self, e: Seq<RelationshipModel>) -> bool {
        match self.relationships {
            Some(v) => v@.len() == e.len() && forall|i: int|
                0 <= i < e.len() ==> (#[trigger] v@[i]).projects(e[i]),
            None => false,
        }
    }

    pub fn from(entity: entity::Connections) -> (r: Self)
        ensures
            r.projects(entity@),
    {
        let ghost src = entity.relationships@;
        let mut out: Vec<Relationship> = Vec::new();
        for x in it: entity.relationships.into_iter()
            invariant
                it.seq() == src,
                out@.len() == it.index(),
                forall|k: int| 0 <= k < it.index() ==> (#[trigger] out@[k]).projects(src[k]@),
        {
            out.push(Relationship::from(x));
        }
        Connections { relationships: Some(out) }
    }
}

#[derive(Debug, Clone, PartialEq, Eq, Default)]
pub struct NormalColumn {
    pub physical_name: String,
    pub logical_name: Option<String>,
    pub description: Option<String>,
    pub column_type: Option<String>,
    pub length: Option<u16>,
    pub decimal: Option<u16>,
    pub unsigned: Option<bool>,
    pub not_null: Option<bool>,
    pub unique_key: Option<bool>,
    pub default_value: Option<String>,
    pub primary_key: Option<bool>,
    pub auto_increment: Option<bool>,
    pub referred_column: Option<String>,
    pub relationship: Option<String>,
}

impl NormalColumn {
    pub open spec fn projects(self, e: NormalColumnModel) -> bool {
        &&& self.physical_name@ == e.physical_name
        &&& opt_str(self.logical_name) == e.logical_name
        &&& opt_str(self.description) == e.description
        &&& opt_str(self.column_type) == e.column_type
        &&& self.length == e.length
        &&& self.decimal == e.decimal
        &&& self.unsigned == Some(e.unsigned)
        &&& self.not_null == Some(e.not_null)
        &&& self.unique_key == Some(e.unique_key)
        &&& opt_str(self.default_value) == e.default_value
        &&& self.primary_key == Some(e.primary_key)
        &&& self.auto_increment == Some(e.auto_increment)
        &&& opt_str(self.referred_column) == e.referred_column
        &&& opt_str(self.relationship) == e.relationship
    }

    pub fn from(entity: entity::NormalColumn) -> (r: Self)
        ensures
            r.projects(entity@),
    {
        NormalColumn {
            physical_name: entity.physical_name,
            logical_name: entity.logical_name,
            description: entity.description,
            column_type: entity.column_type,
            length: entity.length,
            decimal: entity.decimal,
            unsigned: Some(entity.unsigned),
            not_null: Some(entity.not_null),
            unique_key: Some(entity.unique_key),
            default_value: entity.default_value,
            primary_key: Some(entity.primary_key),
            auto_increment: Some(entity.auto_increment),
            referred_column: entity.referred_column,
            relationship: entity.relationship,
        }
    }
}

#[derive(Debug, Clone, PartialEq, Eq)]
pub enum Column {
    Normal(NormalColumn),
    Group(String),
}

impl Column {
    pub open spec fn projects(self, e: ColumnModel) -> bool {
        match (self, e) {
            (Column::Normal(d), ColumnModel::Normal(m)) => d.projects(m),
            (Column::Group(d), ColumnModel::Group(m)) => d@ == m,
            _ => false,
        }
    }

    pub fn from(entity: entity::Column) -> (r: Self)
        ensures
            r.projects(entity@),
    {
        match entity {
            entity::Column::Normal(c) => Column::Normal(NormalColumn::from(c)),
            entity::Column::Group(g) => Column::Group(g),
        }
    }
}

#[derive(Debug, Clone, PartialEq, Eq)]
pub struct Columns {
    pub items: Option<Vec<Column>>,
}

impl Columns {
    pub open spec fn projects(self, e: Seq<ColumnModel>) -> bool {
        match self.items {
            Some(v) => v@.len() == e.len() && forall|i: int|
                0 <= i < e.len() ==> (#[trigger] v@[i]).projects(e[i]),
            None => false,
        }
    }

    pub fn from(entity: entity::Columns) -> (r: Self)
        ensures
            r.projects(entity@),
    {
        let ghost src = entity.items@;
        let mut out: Vec<Column> = Vec::new();
        for x in it: entity.items.into_iter()
            invariant
                it.seq() == src,
                out@.len() == it.index(),
                forall|k: int| 0 <= k < it.index() ==> (#[trigger] out@[k]).projects(src[k]@),
        {
            out.push(Column::from(x));
        }
        Columns { items: Some(out) }
    }
}

#[derive(Debug, Clone, PartialEq, Eq)]
pub struct CompoundUniqueKey {
    pub name: String,
    pub column_ids: Vec<String>,
}

impl CompoundUniqueKey {
    pub open spec fn projects(self, e: CompoundUniqueKeyModel) -> bool {
        &&& self.name@ == e.name
        &&& self.column_ids@.len() == e.column_ids.len()
        &&& forall|i: int|
            0 <= i < e.column_ids.len() ==> (#[trigger] self.column_ids@[i])@ == e.column_ids[i]
    }

    pub fn from(entity: entity::CompoundUniqueKey) -> (r: Self)
        ensures
            r.projects(entity@),
    {
        CompoundUniqueKey { name: entity.name, column_ids: entity.column_ids }
    }
}

#[derive(Debug, Clone, PartialEq, Eq)]
pub struct CompoundUniqueKeyList {
    pub compound_unique_keys: Option<Vec<CompoundUniqueKey>>,
}

impl CompoundUniqueKeyList {
    pub open spec fn projects(self, e: Seq<CompoundUniqueKeyModel>) -> bool {
        match self.compound_unique_keys {
            Some(v) => v@.len() == e.len() && forall|i: int|
                0 <= i < e.len() ==> (#[trigger] v@[i]).projects(e[i]),
            None => false,
        }
    }

    pub fn from(entity: entity::CompoundUniqueKeyList) -> (r: Self)
        ensures
            r.projects(entity@),
    {
        let ghost src = entity.compound_unique_keys@;
        let mut out: Vec<CompoundUniqueKey> = Vec::new();
        for x in it: entity.compound_unique_keys.into_iter()
            invariant
                it.seq() == src,
                out@.len() == it.index(),
                forall|k: int| 0 <= k < it.index() ==> (#[trigger] out@[k]).projects(src[k]@),
        {
            out.push(CompoundUniqueKey::from(x));
        }
        CompoundUniqueKeyList { compound_unique_keys: Some(out) }
    }
}

#[derive(Debug, Clone, PartialEq, Eq)]
pub struct Table {
    pub physical_name: String,
    pub logical_name: String,
    pub description: String,
    pub height: u16,
    pub width: u16,
    pub font_name: String,
    pub font_size: u16,
    pub x: u16,
    pub y: u16,
    pub color: Color,
    pub connections: Connections,
    pub columns: Columns,
    pub primary_key_name: Option<String>,
    pub table_constraint: Option<String>,
    pub compound_unique_key_list: CompoundUniqueKeyList,
}

impl Table {
    pub open spec fn projects(self, e: TableModel) -> bool {
        &&& self.physical_name@ == e.physical_name
        &&& self.logical_name@ == e.logical_name
        &&& self.description@ == e.description
        &&& self.height == e.height
        &&& self.width == e.width
        &&& self.font_name@ == e.font_name
        &&& self.font_size == e.font_size
        &&& self.x == e.x
        &&& self.y == e.y
        &&& self.color.projects(e.color)
        &&& self.connections.projects(e.connections)
        &&& self.columns.projects(e.columns)
        &&& opt_str(self.primary_key_name) == e.primary_key_name
        &&& opt_str(self.table_constraint) == e.table_constraint
        &&& self.compound_unique_key_list.projects(e.compound_unique_keys)
    }

    pub fn from(entity: entity::Table) -> (r: Self)
        ensures
            r.projects(entity@),
    {
        Table {
            physical_name: entity.physical_name,
            logical_name: entity.logical_name,
            description: entity.description,
            height: entity.height,
            width: entity.width,
            font_name: entity.font_name,
            font_size: entity.font_size,
            x: entity.x,
            y: entity.y,
            color: Color::from(entity.color),
            connections: Connections::from(entity.connections),
            columns: Columns::from(entity.columns),
            primary_key_name: entity.primary_key_name,
            table_constraint: entity.table_constraint,
            compound_unique_key_list: CompoundUniqueKeyList::from(entity.compound_unique_key_list),
        }
    }
}

#[derive(Debug, Clone, PartialEq, Eq)]
pub struct DiagramWalkers {
    pub tables: Option<Vec<Table>>,
}

impl DiagramWalkers {
    pub open spec fn projects(self, e: Seq<TableModel>) -> bool {
        match self.tables {
            Some(v) => v@.len() == e.len() && forall|i: int|
                0 <= i < e.len() ==> (#[trigger] v@[i]).projects(e[i]),
            None => false,
        }
    }

    pub fn from(entity: entity::DiagramWalkers) -> (r: Self)
        ensures
            r.projects(entity@),
    {
        let ghost src = entity.tables@;
        let mut out: Vec<Table> = Vec::new();
        for x in it: entity.tables.into_iter()
            invariant
                it.seq() == src,
                out@.len() == it.index(),
                forall|k: int| 0 <= k < it.index() ==> (#[trigger] out@[k]).projects(src[k]@),
        {
            out.push(Table::from(x));
        }
        DiagramWalkers { tables: Some(out) }
    }
}

} // verus!
