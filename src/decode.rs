//! The schema mapping from an element tree to the canonical model.
//!
//! Scalar fields are read from the first child element with the field's tag;
//! list fields from every child element with the item tag, in document order.
//! Elements with other tags are ignored. A missing list container reads as
//! an empty list, so legacy documents without relationships or columns decode
//! the same way as documents with zero, one or many of them.
use vstd::prelude::*;

use crate::entities::column_groups::{
    ColumnGroup, ColumnGroupModel, ColumnGroups, Columns as GroupColumns, GroupColumnModel,
    NormalColumn as GroupColumn,
};
use crate::entities::diagram::{Diagram, DiagramModel};
use crate::entities::diagram_settings::{DiagramSettings, DiagramSettingsModel};
use crate::entities::diagram_walkers::{
    Color, Column, ColumnModel, Columns, CompoundUniqueKey, CompoundUniqueKeyList,
    CompoundUniqueKeyModel, Connections, DiagramWalkers, FkColumn, FkColumns, NormalColumn,
    NormalColumnModel, Relationship, RelationshipModel, Table, TableModel,
};
use crate::error::DecodeError;
use crate::scalar::{bool_of, parse_bool, parse_u16, parse_u8, u16_of, u8_of};
use crate::xml::{
    child, child_text, children_named, element_text, elems_named, find_child, find_child_text,
    is_named, lemma_elem_view, content_of, ElemModel, NodeModel, XmlElement, XmlNode,
};

verus! {

// ---------------------------------------------------------------------------
// Field rules
/// A required 16-bit number.
pub open spec fn req_u16(e: ElemModel, tag: Seq<char>) -> Option<u16> {
    match child_text(e, tag) {
        Some(t) => u16_of(t),
        None => None,
    }
}

/// A required byte.
pub open spec fn req_u8(e: ElemModel, tag: Seq<char>) -> Option<u8> {
    match child_text(e, tag) {
        Some(t) => u8_of(t),
        None => None,
    }
}

/// Free text that reads as empty when absent.
pub open spec fn text_or_empty(e: ElemModel, tag: Seq<char>) -> Seq<char> {
    match child_text(e, tag) {
        Some(t) => t,
        None => Seq::empty(),
    }
}

/// An optional 16-bit number: absent stays absent, present must be valid.
pub open spec fn opt_u16(e: ElemModel, tag: Seq<char>) -> Option<Option<u16>> {
    match child_text(e, tag) {
        Some(t) => match u16_of(t) {
            Some(v) => Some(Some(v)),
            None => None,
        },
        None => Some(None),
    }
}

/// A flag: absent reads as `false`, present must be valid.
pub open spec fn flag(e: ElemModel, tag: Seq<char>) -> Option<bool> {
    match child_text(e, tag) {
        Some(t) => bool_of(t),
        None => Some(false),
    }
}

/// The items with tag `item` inside the optional container `list` of `e`.
pub open spec fn list_items(e: ElemModel, list: Seq<char>, item: Seq<char>) -> Seq<ElemModel> {
    match child(e, list) {
        Some(c) => elems_named(c.children, item),
        None => Seq::empty(),
    }
}

/// The outcome the exec decoders promise against a spec decoder.
pub open spec fn decodes_as<T: View>(r: Result<T, DecodeError>, expected: Option<T::V>) -> bool {
    match r {
        Ok(v) => expected == Some(v@),
        Err(err) => expected is None && err.is_schema(),
    }
}

fn required_text(e: &XmlElement, tag: &str) -> (r: Result<String, DecodeError>)
    ensures
        match r {
            Ok(t) => child_text(e@, tag@) == Some(t@),
            Err(err) => child_text(e@, tag@) is None && err is MissingField
                && err->MissingField_0@ == tag@,
        },
{
    match find_child_text(e, tag) {
        Some(t) => Ok(t),
        None => Err(DecodeError::MissingField(tag.to_owned())),
    }
}

fn read_text_or_empty(e: &XmlElement, tag: &str) -> (r: String)
    ensures
        r@ == text_or_empty(e@, tag@),
{
    match find_child_text(e, tag) {
        Some(t) => t,
        None => String::new(),
    }
}

fn required_u16(e: &XmlElement, tag: &str) -> (r: Result<u16, DecodeError>)
    ensures
        match r {
            Ok(v) => req_u16(e@, tag@) == Some(v),
            Err(err) => req_u16(e@, tag@) is None && err.is_schema(),
        },
{
    let t = match required_text(e, tag) {
        Ok(t) => t,
        Err(err) => return Err(err),
    };
    match parse_u16(t.as_str()) {
        Some(v) => Ok(v),
        None => Err(DecodeError::InvalidValue(tag.to_owned())),
    }
}

fn required_u8(e: &XmlElement, tag: &str) -> (r: Result<u8, DecodeError>)
    ensures
        match r {
            Ok(v) => req_u8(e@, tag@) == Some(v),
            Err(err) => req_u8(e@, tag@) is None && err.is_schema(),
        },
{
    let t = match required_text(e, tag) {
        Ok(t) => t,
        Err(err) => return Err(err),
    };
    match parse_u8(t.as_str()) {
        Some(v) => Ok(v),
        None => Err(DecodeError::InvalidValue(tag.to_owned())),
    }
}

fn optional_u16(e: &XmlElement, tag: &str) -> (r: Result<Option<u16>, DecodeError>)
    ensures
        match r {
            Ok(v) => opt_u16(e@, tag@) == Some(v),
            Err(err) => opt_u16(e@, tag@) is None && err.is_schema(),
        },
{
    match find_child_text(e, tag) {
        Some(t) => match parse_u16(t.as_str()) {
            Some(v) => Ok(Some(v)),
            None => Err(DecodeError::InvalidValue(tag.to_owned())),
        },
        None => Ok(None),
    }
}

fn read_flag(e: &XmlElement, tag: &str) -> (r: Result<bool, DecodeError>)
    ensures
        match r {
            Ok(v) => flag(e@, tag@) == Some(v),
            Err(err) => flag(e@, tag@) is None && err.is_schema(),
        },
{
    match find_child_text(e, tag) {
        Some(t) => match parse_bool(&t) {
            Some(v) => Ok(v),
            None => Err(DecodeError::InvalidValue(tag.to_owned())),
        },
        None => Ok(false),
    }
}

/// The items with tag `item` inside the optional container `list` of `e`.
fn items_of<'a>(e: &'a XmlElement, list: &str, item: &str) -> (r: Vec<&'a XmlElement>)
    ensures
        r@.len() == list_items(e@, list@, item@).len(),
        forall|i: int| 0 <= i < r@.len() ==> r@[i]@ == list_items(e@, list@, item@)[i],
{
    match find_child(e, list) {
        Some(c) => children_named(c, item),
        None => Vec::new(),
    }
}

// ---------------------------------------------------------------------------
// Relationships
pub open spec fn fk_column_spec(e: ElemModel) -> Option<Seq<char>> {
    child_text(e, "fk_column_name"@)
}

pub open spec fn relationship_spec(e: ElemModel) -> Option<RelationshipModel> {
    let name = child_text(e, "name"@);
    let source = child_text(e, "source"@);
    let target = child_text(e, "target"@);
    let fk = child(e, "fk_columns"@);
    let fks = match fk {
        Some(c) => fk_columns_spec(c),
        None => None,
    };
    let parent = child_text(e, "parent_cardinality"@);
    let child_card = child_text(e, "child_cardinality"@);
    let for_pk = flag(e, "reference_for_pk"@);
    let on_delete = child_text(e, "on_delete_action"@);
    let on_update = child_text(e, "on_update_action"@);
    if name is Some && source is Some && target is Some && fks is Some && parent is Some
        && child_card is Some && for_pk is Some && on_delete is Some && on_update is Some {
        Some(
            RelationshipModel {
                name: name->Some_0,
                source: source->Some_0,
                target: target->Some_0,
                fk_columns: fks->Some_0,
                parent_cardinality: parent->Some_0,
                child_cardinality: child_card->Some_0,
                reference_for_pk: for_pk->Some_0,
                on_delete_action: on_delete->Some_0,
                on_update_action: on_update->Some_0,
            },
        )
    } else {
        None
    }
}

pub open spec fn fk_columns_spec(e: ElemModel) -> Option<Seq<Seq<char>>> {
    let s = elems_named(e.children, "fk_column"@);
    if forall|i: int| 0 <= i < s.len() ==> (#[trigger] fk_column_spec(s[i])) is Some {
        Some(s.map_values(|x: ElemModel| fk_column_spec(x)->Some_0))
    } else {
        None
    }
}

pub open spec fn connections_spec(e: ElemModel) -> Option<Seq<RelationshipModel>> {
    let s = list_items(e, "connections"@, "relationship"@);
    if forall|i: int| 0 <= i < s.len() ==> (#[trigger] relationship_spec(s[i])) is Some {
        Some(s.map_values(|x: ElemModel| relationship_spec(x)->Some_0))
    } else {
        None
    }
}

fn decode_fk_columns(e: &XmlElement) -> (r: Result<FkColumns, DecodeError>)
    ensures
        decodes_as(r, fk_columns_spec(e@)),
{
    let items = children_named(e, "fk_column");
    let ghost spec_items = elems_named(e@.children, "fk_column"@);
    let mut out: Vec<FkColumn> = Vec::new();
    let mut i: usize = 0;
    while i < items.len()
        invariant
            i <= items@.len(),
            spec_items == elems_named(e@.children, "fk_column"@),
            items@.len() == spec_items.len(),
            forall|k: int| 0 <= k < items@.len() ==> items@[k]@ == spec_items[k],
            out@.len() == i,
            forall|k: int| #![trigger spec_items[k]] 0 <= k < i ==> fk_column_spec(spec_items[k]) == Some(out@[k].fk_column_name@),
        decreases items@.len() - i,
    {
        let name = match required_text(items[i], "fk_column_name") {
            Ok(t) => t,
            Err(err) => {
                assert(fk_column_spec(spec_items[i as int]) is None);
                return Err(err);
            },
        };
        out.push(FkColumn { fk_column_name: name });
        i = i + 1;
    }
    let r = FkColumns { fk_column: out };
    assert(forall|k: int| 0 <= k < spec_items.len() ==> fk_column_spec(spec_items[k]) is Some);
    assert(fk_columns_spec(e@)->Some_0 =~= r@);
    Ok(r)
}

fn decode_relationship(e: &XmlElement) -> (r: Result<Relationship, DecodeError>)
    ensures
        decodes_as(r, relationship_spec(e@)),
{
    let name = match required_text(e, "name") {
        Ok(t) => t,
        Err(err) => return Err(err),
    };
    let source = match required_text(e, "source") {
        Ok(t) => t,
        Err(err) => return Err(err),
    };
    let target = match required_text(e, "target") {
        Ok(t) => t,
        Err(err) => return Err(err),
    };
    let fk_columns = match find_child(e, "fk_columns") {
        Some(c) => match decode_fk_columns(c) {
            Ok(v) => v,
            Err(err) => return Err(err),
        },
        None => return Err(DecodeError::MissingField("fk_columns".to_owned())),
    };
    let parent_cardinality = match required_text(e, "parent_cardinality") {
        Ok(t) => t,
        Err(err) => return Err(err),
    };
    let child_cardinality = match required_text(e, "child_cardinality") {
        Ok(t) => t,
        Err(err) => return Err(err),
    };
    let reference_for_pk = match read_flag(e, "reference_for_pk") {
        Ok(v) => v,
        Err(err) => return Err(err),
    };
    let on_delete_action = match required_text(e, "on_delete_action") {
        Ok(t) => t,
        Err(err) => return Err(err),
    };
    let on_update_action = match required_text(e, "on_update_action") {
        Ok(t) => t,
        Err(err) => return Err(err),
    };
    Ok(
        Relationship {
            name,
            source,
            target,
            fk_columns,
            parent_cardinality,
            child_cardinality,
            reference_for_pk,
            on_delete_action,
            on_update_action,
        },
    )
}

fn decode_connections(e: &XmlElement) -> (r: Result<Connections, DecodeError>)
    ensures
        decodes_as(r, connections_spec(e@)),
{
    let items = items_of(e, "connections", "relationship");
    let ghost spec_items = list_items(e@, "connections"@, "relationship"@);
    let mut out: Vec<Relationship> = Vec::new();
    let mut i: usize = 0;
    while i < items.len()
        invariant
            i <= items@.len(),
            spec_items == list_items(e@, "connections"@, "relationship"@),
            items@.len() == spec_items.len(),
            forall|k: int| 0 <= k < items@.len() ==> items@[k]@ == spec_items[k],
            out@.len() == i,
            forall|k: int|
                #![trigger spec_items[k]]
                0 <= k < i ==> relationship_spec(spec_items[k]) == Some(out@[k]@),
        decreases items@.len() - i,
    {
        let rel = match decode_relationship(items[i]) {
            Ok(v) => v,
            Err(err) => {
                assert(relationship_spec(spec_items[i as int]) is None);
                return Err(err);
            },
        };
        out.push(rel);
        i = i + 1;
    }
    let r = Connections { relationships: out };
    assert(forall|k: int| 0 <= k < spec_items.len() ==> relationship_spec(spec_items[k]) is Some);
    assert(connections_spec(e@)->Some_0 =~= r@);
    Ok(r)
}

// ---------------------------------------------------------------------------
// Columns
pub open spec fn normal_column_spec(e: ElemModel) -> Option<NormalColumnModel> {
    let physical_name = child_text(e, "physical_name"@);
    let length = opt_u16(e, "length"@);
    let decimal = opt_u16(e, "decimal"@);
    let unsigned = flag(e, "unsigned"@);
    let not_null = flag(e, "not_null"@);
    let unique_key = flag(e, "unique_key"@);
    let primary_key = flag(e, "primary_key"@);
    let auto_increment = flag(e, "auto_increment"@);
    if physical_name is Some && length is Some && decimal is Some && unsigned is Some
        && not_null is Some && unique_key is Some && primary_key is Some
        && auto_increment is Some {
        Some(
            NormalColumnModel {
                physical_name: physical_name->Some_0,
                logical_name: child_text(e, "logical_name"@),
                description: child_text(e, "description"@),
                column_type: child_text(e, "type"@),
                length: length->Some_0,
                decimal: decimal->Some_0,
                unsigned: unsigned->Some_0,
                not_null: not_null->Some_0,
                unique_key: unique_key->Some_0,
                default_value: child_text(e, "default_value"@),
                primary_key: primary_key->Some_0,
                auto_increment: auto_increment->Some_0,
                referred_column: child_text(e, "referred_column"@),
                relationship: child_text(e, "relationship"@),
            },
        )
    } else {
        None
    }
}

/// The column list: `normal_column` and `column_group` elements, in order.
pub open spec fn column_items_spec(nodes: Seq<NodeModel>) -> Option<Seq<ColumnModel>>
    decreases nodes.len(),
{
    if nodes.len() == 0 {
        Some(Seq::empty())
    } else {
        match column_items_spec(nodes.drop_last()) {
            None => None,
            Some(prev) => match nodes.last() {
                NodeModel::Element(x) => if x.name == "normal_column"@ {
                    match normal_column_spec(x) {
                        Some(c) => Some(prev.push(ColumnModel::Normal(c))),
                        None => None,
                    }
                } else if x.name == "column_group"@ {
                    Some(prev.push(ColumnModel::Group(content_of(x))))
                } else {
                    Some(prev)
                },
                NodeModel::Text(_) => Some(prev),
            },
        }
    }
}

pub open spec fn columns_spec(e: ElemModel) -> Option<Seq<ColumnModel>> {
    match child(e, "columns"@) {
        Some(c) => column_items_spec(c.children),
        None => Some(Seq::empty()),
    }
}

proof fn lemma_column_items_fail_extends(nodes: Seq<NodeModel>, i: int, j: int)
    requires
        0 <= i <= j <= nodes.len(),
        column_items_spec(nodes.subrange(0, i)) is None,
    ensures
        column_items_spec(nodes.subrange(0, j)) is None,
    decreases j - i,
{
    if j > i {
        lemma_column_items_fail_extends(nodes, i, j - 1);
        assert(nodes.subrange(0, j).drop_last() =~= nodes.subrange(0, j - 1));
    }
}

fn decode_normal_column(e: &XmlElement) -> (r: Result<NormalColumn, DecodeError>)
    ensures
        decodes_as(r, normal_column_spec(e@)),
{
    let physical_name = match required_text(e, "physical_name") {
        Ok(t) => t,
        Err(err) => return Err(err),
    };
    let length = match optional_u16(e, "length") {
        Ok(v) => v,
        Err(err) => return Err(err),
    };
    let decimal = match optional_u16(e, "decimal") {
        Ok(v) => v,
        Err(err) => return Err(err),
    };
    let unsigned = match read_flag(e, "unsigned") {
        Ok(v) => v,
        Err(err) => return Err(err),
    };
    let not_null = match read_flag(e, "not_null") {
        Ok(v) => v,
        Err(err) => return Err(err),
    };
    let unique_key = match read_flag(e, "unique_key") {
        Ok(v) => v,
        Err(err) => return Err(err),
    };
    let primary_key = match read_flag(e, "primary_key") {
        Ok(v) => v,
        Err(err) => return Err(err),
    };
    let auto_increment = match read_flag(e, "auto_increment") {
        Ok(v) => v,
        Err(err) => return Err(err),
    };
    Ok(
        NormalColumn {
            physical_name,
            logical_name: find_child_text(e, "logical_name"),
            description: find_child_text(e, "description"),
            column_type: find_child_text(e, "type"),
            length,
            decimal,
            unsigned,
            not_null,
            unique_key,
            default_value: find_child_text(e, "default_value"),
            primary_key,
            auto_increment,
            referred_column: find_child_text(e, "referred_column"),
            relationship: find_child_text(e, "relationship"),
        },
    )
}

/// Decodes a table's column list, keeping the order of normal columns and
/// group references as they stand in the document.
fn decode_column_items(c: &XmlElement) -> (r: Result<Columns, DecodeError>)
    ensures
        decodes_as(r, column_items_spec(c@.children)),
{
    proof {
        lemma_elem_view(*c);
    }
    let ghost m = c@.children;
    let nodes = &c.children;
    let mut out: Vec<Column> = Vec::new();
    let mut i: usize = 0;
    while i < nodes.len()
        invariant
            i <= nodes@.len(),
            nodes@ == c.children@,
            m == c@.children,
            m.len() == nodes@.len(),
            forall|k: int| 0 <= k < nodes@.len() ==> #[trigger] m[k] == nodes@[k]@,
            column_items_spec(m.subrange(0, i as int)) == Some(out@.map_values(|x: Column| x@)),
        decreases nodes@.len() - i,
    {
        let ghost prefix = m.subrange(0, i as int);
        let ghost next = m.subrange(0, i + 1);
        assert(next.drop_last() =~= prefix);
        assert(next.last() == m[i as int]);
        match &nodes[i] {
            XmlNode::Element(x) => {
                assert(m[i as int] == NodeModel::Element(x@));
                if is_named(x, "normal_column") {
                    match decode_normal_column(x) {
                        Ok(col) => {
                            out.push(Column::Normal(col));
                        },
                        Err(err) => {
                            proof {
                                lemma_column_items_fail_extends(m, i + 1, m.len() as int);
                                assert(m.subrange(0, m.len() as int) =~= m);
                            }
                            return Err(err);
                        },
                    }
                } else if is_named(x, "column_group") {
                    out.push(Column::Group(element_text(x)));
                }
            },
            XmlNode::Text(t) => {
                assert(m[i as int] == NodeModel::Text(t@));
            },
        }
        assert(column_items_spec(next)->Some_0 =~= out@.map_values(|x: Column| x@));
        i = i + 1;
    }
    assert(m.subrange(0, i as int) =~= m);
    Ok(Columns { items: out })
}

fn decode_columns(e: &XmlElement) -> (r: Result<Columns, DecodeError>)
    ensures
        decodes_as(r, columns_spec(e@)),
{
    match find_child(e, "columns") {
        Some(c) => decode_column_items(c),
        None => {
            let r = Columns { items: Vec::new() };
            assert(r@ =~= Seq::<ColumnModel>::empty());
            Ok(r)
        },
    }
}

// ---------------------------------------------------------------------------
// Tables
pub open spec fn column_id_spec(e: ElemModel) -> Option<Seq<char>> {
    child_text(e, "column_id"@)
}

pub open spec fn column_ids_spec(e: ElemModel) -> Option<Seq<Seq<char>>> {
    let s = list_items(e, "columns"@, "column"@);
    if forall|i: int| 0 <= i < s.len() ==> (#[trigger] column_id_spec(s[i])) is Some {
        Some(s.map_values(|x: ElemModel| column_id_spec(x)->Some_0))
    } else {
        None
    }
}

pub open spec fn compound_unique_key_spec(e: ElemModel) -> Option<CompoundUniqueKeyModel> {
    let name = child_text(e, "name"@);
    let ids = column_ids_spec(e);
    if name is Some && ids is Some {
        Some(CompoundUniqueKeyModel { name: name->Some_0, column_ids: ids->Some_0 })
    } else {
        None
    }
}

pub open spec fn compound_unique_keys_spec(e: ElemModel) -> Option<Seq<CompoundUniqueKeyModel>> {
    let s = list_items(e, "compound_unique_key_list"@, "compound_unique_key"@);
    if forall|i: int| 0 <= i < s.len() ==> (#[trigger] compound_unique_key_spec(s[i])) is Some {
        Some(s.map_values(|x: ElemModel| compound_unique_key_spec(x)->Some_0))
    } else {
        None
    }
}

pub open spec fn color_spec(e: ElemModel) -> Option<Color> {
    match child(e, "color"@) {
        Some(c) => {
            let r = req_u8(c, "r"@);
            let g = req_u8(c, "g"@);
            let b = req_u8(c, "b"@);
            if r is Some && g is Some && b is Some {
                Some(Color { r: r->Some_0, g: g->Some_0, b: b->Some_0 })
            } else {
                None
            }
        },
        None => None,
    }
}

/// A table: its physical name is required and non-empty; its logical name
/// and description read as empty when absent.
pub open spec fn table_spec(e: ElemModel) -> Option<TableModel> {
    let physical_name = child_text(e, "physical_name"@);
    let logical_name = text_or_empty(e, "logical_name"@);
    let description = text_or_empty(e, "description"@);
    let height = req_u16(e, "height"@);
    let width = req_u16(e, "width"@);
    let font_name = child_text(e, "font_name"@);
    let font_size = req_u16(e, "font_size"@);
    let x = req_u16(e, "x"@);
    let y = req_u16(e, "y"@);
    let color = color_spec(e);
    let connections = connections_spec(e);
    let columns = columns_spec(e);
    let keys = compound_unique_keys_spec(e);
    if physical_name is Some && physical_name->Some_0.len() > 0 && height is Some && width is Some && font_name is Some
        && font_size is Some && x is Some && y is Some && color is Some && connections is Some
        && columns is Some && keys is Some {
        Some(
            TableModel {
                physical_name: physical_name->Some_0,
                logical_name,
                description,
                height: height->Some_0,
                width: width->Some_0,
                font_name: font_name->Some_0,
                font_size: font_size->Some_0,
                x: x->Some_0,
                y: y->Some_0,
                color: color->Some_0,
                connections: connections->Some_0,
                columns: columns->Some_0,
                primary_key_name: child_text(e, "primary_key_name"@),
                table_constraint: child_text(e, "table_constraint"@),
                compound_unique_keys: keys->Some_0,
            },
        )
    } else {
        None
    }
}

fn decode_column_ids(e: &XmlElement) -> (r: Result<Vec<String>, DecodeError>)
    ensures
        match r {
            Ok(v) => column_ids_spec(e@) == Some(v@.map_values(|s: String| s@)),
            Err(err) => column_ids_spec(e@) is None && err.is_schema(),
        },
{
    let items = items_of(e, "columns", "column");
    let ghost spec_items = list_items(e@, "columns"@, "column"@);
    let mut out: Vec<String> = Vec::new();
    let mut i: usize = 0;
    while i < items.len()
        invariant
            i <= items@.len(),
            spec_items == list_items(e@, "columns"@, "column"@),
            items@.len() == spec_items.len(),
            forall|k: int| 0 <= k < items@.len() ==> items@[k]@ == spec_items[k],
            out@.len() == i,
            forall|k: int|
                #![trigger spec_items[k]]
                0 <= k < i ==> column_id_spec(spec_items[k]) == Some(out@[k]@),
        decreases items@.len() - i,
    {
        let id = match required_text(items[i], "column_id") {
            Ok(t) => t,
            Err(err) => {
                assert(column_id_spec(spec_items[i as int]) is None);
                return Err(err);
            },
        };
        out.push(id);
        i = i + 1;
    }
    assert(forall|k: int| 0 <= k < spec_items.len() ==> column_id_spec(spec_items[k]) is Some);
    assert(column_ids_spec(e@)->Some_0 =~= out@.map_values(|s: String| s@));
    Ok(out)
}

fn decode_compound_unique_key(e: &XmlElement) -> (r: Result<CompoundUniqueKey, DecodeError>)
    ensures
        decodes_as(r, compound_unique_key_spec(e@)),
{
    let name = match required_text(e, "name") {
        Ok(t) => t,
        Err(err) => return Err(err),
    };
    let column_ids = match decode_column_ids(e) {
        Ok(v) => v,
        Err(err) => return Err(err),
    };
    Ok(CompoundUniqueKey { name, column_ids })
}

fn decode_compound_unique_keys(e: &XmlElement) -> (r: Result<CompoundUniqueKeyList, DecodeError>)
    ensures
        decodes_as(r, compound_unique_keys_spec(e@)),
{
    let items = items_of(e, "compound_unique_key_list", "compound_unique_key");
    let ghost spec_items = list_items(e@, "compound_unique_key_list"@, "compound_unique_key"@);
    let mut out: Vec<CompoundUniqueKey> = Vec::new();
    let mut i: usize = 0;
    while i < items.len()
        invariant
            i <= items@.len(),
            spec_items == list_items(e@, "compound_unique_key_list"@, "compound_unique_key"@),
            items@.len() == spec_items.len(),
            forall|k: int| 0 <= k < items@.len() ==> items@[k]@ == spec_items[k],
            out@.len() == i,
            forall|k: int|
                #![trigger spec_items[k]]
                0 <= k < i ==> compound_unique_key_spec(spec_items[k]) == Some(out@[k]@),
        decreases items@.len() - i,
    {
        let key = match decode_compound_unique_key(items[i]) {
            Ok(v) => v,
            Err(err) => {
                assert(compound_unique_key_spec(spec_items[i as int]) is None);
                return Err(err);
            },
        };
        out.push(key);
        i = i + 1;
    }
    let r = CompoundUniqueKeyList { compound_unique_keys: out };
    assert(forall|k: int|
        0 <= k < spec_items.len() ==> compound_unique_key_spec(spec_items[k]) is Some);
    assert(compound_unique_keys_spec(e@)->Some_0 =~= r@);
    Ok(r)
}

fn decode_color(e: &XmlElement) -> (r: Result<Color, DecodeError>)
    ensures
        match r {
            Ok(c) => color_spec(e@) == Some(c),
            Err(err) => color_spec(e@) is None && err.is_schema(),
        },
{
    let c = match find_child(e, "color") {
        Some(c) => c,
        None => return Err(DecodeError::MissingField("color".to_owned())),
    };
    let r = match required_u8(c, "r") {
        Ok(v) => v,
        Err(err) => return Err(err),
    };
    let g = match required_u8(c, "g") {
        Ok(v) => v,
        Err(err) => return Err(err),
    };
    let b = match required_u8(c, "b") {
        Ok(v) => v,
        Err(err) => return Err(err),
    };
    Ok(Color { r, g, b })
}

/// Decodes one table element.
pub fn decode_table(e: &XmlElement) -> (r: Result<Table, DecodeError>)
    ensures
        decodes_as(r, table_spec(e@)),
        child(e@, "physical_name"@) is None ==> (r is Err && r->Err_0 is MissingField
            && r->Err_0->MissingField_0@ == "physical_name"@),
        child_text(e@, "physical_name"@) == Some(Seq::<char>::empty()) ==> (r is Err
            && r->Err_0 is InvalidValue && r->Err_0->InvalidValue_0@ == "physical_name"@),
{
    let physical_name = match required_text(e, "physical_name") {
        Ok(t) => t,
        Err(err) => return Err(err),
    };
    if physical_name == String::new() {
        return Err(DecodeError::InvalidValue("physical_name".to_owned()));
    }
    assert(physical_name@.len() > 0) by {
        if physical_name@.len() == 0 {
            assert(physical_name@ =~= Seq::<char>::empty());
        }
    }
    let logical_name = read_text_or_empty(e, "logical_name");
    let description = read_text_or_empty(e, "description");
    let height = match required_u16(e, "height") {
        Ok(v) => v,
        Err(err) => return Err(err),
    };
    let width = match required_u16(e, "width") {
        Ok(v) => v,
        Err(err) => return Err(err),
    };
    let font_name = match required_text(e, "font_name") {
        Ok(t) => t,
        Err(err) => return Err(err),
    };
    let font_size = match required_u16(e, "font_size") {
        Ok(v) => v,
        Err(err) => return Err(err),
    };
    let x = match required_u16(e, "x") {
        Ok(v) => v,
        Err(err) => return Err(err),
    };
    let y = match required_u16(e, "y") {
        Ok(v) => v,
        Err(err) => return Err(err),
    };
    let color = match decode_color(e) {
        Ok(v) => v,
        Err(err) => return Err(err),
    };
    let connections = match decode_connections(e) {
        Ok(v) => v,
        Err(err) => return Err(err),
    };
    let columns = match decode_columns(e) {
        Ok(v) => v,
        Err(err) => return Err(err),
    };
    let compound_unique_key_list = match decode_compound_unique_keys(e) {
        Ok(v) => v,
        Err(err) => return Err(err),
    };
    Ok(
        Table {
            physical_name,
            logical_name,
            description,
            height,
            width,
            font_name,
            font_size,
            x,
            y,
            color,
            connections,
            columns,
            primary_key_name: find_child_text(e, "primary_key_name"),
            table_constraint: find_child_text(e, "table_constraint"),
            compound_unique_key_list,
        },
    )
}

// ---------------------------------------------------------------------------
// Column groups
pub open spec fn group_column_spec(e: ElemModel) -> Option<GroupColumnModel> {
    let physical_name = child_text(e, "physical_name"@);
    let column_type = child_text(e, "type"@);
    let not_null = flag(e, "not_null"@);
    let unique_key = flag(e, "unique_key"@);
    let unsigned = flag(e, "unsigned"@);
    if physical_name is Some && column_type is Some && not_null is Some && unique_key is Some
        && unsigned is Some {
        Some(
            GroupColumnModel {
                physical_name: physical_name->Some_0,
                logical_name: child_text(e, "logical_name"@),
                column_type: column_type->Some_0,
                not_null: not_null->Some_0,
                unique_key: unique_key->Some_0,
                unsigned: unsigned->Some_0,
            },
        )
    } else {
        None
    }
}

pub open spec fn group_columns_spec(e: ElemModel) -> Option<Seq<GroupColumnModel>> {
    let s = elems_named(e.children, "normal_column"@);
    if forall|i: int| 0 <= i < s.len() ==> (#[trigger] group_column_spec(s[i])) is Some {
        Some(s.map_values(|x: ElemModel| group_column_spec(x)->Some_0))
    } else {
        None
    }
}

pub open spec fn column_group_spec(e: ElemModel) -> Option<ColumnGroupModel> {
    let name = child_text(e, "column_group_name"@);
    let columns = match child(e, "columns"@) {
        Some(c) => group_columns_spec(c),
        None => None,
    };
    if name is Some && columns is Some {
        Some(ColumnGroupModel { column_group_name: name->Some_0, columns: columns->Some_0 })
    } else {
        None
    }
}

pub open spec fn column_groups_spec(e: ElemModel) -> Option<Seq<ColumnGroupModel>> {
    let s = list_items(e, "column_groups"@, "column_group"@);
    if forall|i: int| 0 <= i < s.len() ==> (#[trigger] column_group_spec(s[i])) is Some {
        Some(s.map_values(|x: ElemModel| column_group_spec(x)->Some_0))
    } else {
        None
    }
}

fn decode_group_column(e: &XmlElement) -> (r: Result<GroupColumn, DecodeError>)
    ensures
        decodes_as(r, group_column_spec(e@)),
{
    let physical_name = match required_text(e, "physical_name") {
        Ok(t) => t,
        Err(err) => return Err(err),
    };
    let column_type = match required_text(e, "type") {
        Ok(t) => t,
        Err(err) => return Err(err),
    };
    let not_null = match read_flag(e, "not_null") {
        Ok(v) => v,
        Err(err) => return Err(err),
    };
    let unique_key = match read_flag(e, "unique_key") {
        Ok(v) => v,
        Err(err) => return Err(err),
    };
    let unsigned = match read_flag(e, "unsigned") {
        Ok(v) => v,
        Err(err) => return Err(err),
    };
    Ok(
        GroupColumn {
            physical_name,
            logical_name: find_child_text(e, "logical_name"),
            column_type,
            not_null,
            unique_key,
            unsigned,
        },
    )
}

fn decode_group_columns(e: &XmlElement) -> (r: Result<GroupColumns, DecodeError>)
    ensures
        decodes_as(r, group_columns_spec(e@)),
{
    let items = children_named(e, "normal_column");
    let ghost spec_items = elems_named(e@.children, "normal_column"@);
    let mut out: Vec<GroupColumn> = Vec::new();
    let mut i: usize = 0;
    while i < items.len()
        invariant
            i <= items@.len(),
            spec_items == elems_named(e@.children, "normal_column"@),
            items@.len() == spec_items.len(),
            forall|k: int| 0 <= k < items@.len() ==> items@[k]@ == spec_items[k],
            out@.len() == i,
            forall|k: int|
                #![trigger spec_items[k]]
                0 <= k < i ==> group_column_spec(spec_items[k]) == Some(out@[k]@),
        decreases items@.len() - i,
    {
        let col = match decode_group_column(items[i]) {
            Ok(v) => v,
            Err(err) => {
                assert(group_column_spec(spec_items[i as int]) is None);
                return Err(err);
            },
        };
        out.push(col);
        i = i + 1;
    }
    let r = GroupColumns { normal_columns: out };
    assert(forall|k: int| 0 <= k < spec_items.len() ==> group_column_spec(spec_items[k]) is Some);
    assert(group_columns_spec(e@)->Some_0 =~= r@);
    Ok(r)
}

fn decode_column_group(e: &XmlElement) -> (r: Result<ColumnGroup, DecodeError>)
    ensures
        decodes_as(r, column_group_spec(e@)),
{
    let column_group_name = match required_text(e, "column_group_name") {
        Ok(t) => t,
        Err(err) => return Err(err),
    };
    let columns = match find_child(e, "columns") {
        Some(c) => match decode_group_columns(c) {
            Ok(v) => v,
            Err(err) => return Err(err),
        },
        None => return Err(DecodeError::MissingField("columns".to_owned())),
    };
    Ok(ColumnGroup { column_group_name, columns })
}

fn decode_column_groups(e: &XmlElement) -> (r: Result<ColumnGroups, DecodeError>)
    ensures
        decodes_as(r, column_groups_spec(e@)),
{
    let items = items_of(e, "column_groups", "column_group");
    let ghost spec_items = list_items(e@, "column_groups"@, "column_group"@);
    let mut out: Vec<ColumnGroup> = Vec::new();
    let mut i: usize = 0;
    while i < items.len()
        invariant
            i <= items@.len(),
            spec_items == list_items(e@, "column_groups"@, "column_group"@),
            items@.len() == spec_items.len(),
            forall|k: int| 0 <= k < items@.len() ==> items@[k]@ == spec_items[k],
            out@.len() == i,
            forall|k: int|
                #![trigger spec_items[k]]
                0 <= k < i ==> column_group_spec(spec_items[k]) == Some(out@[k]@),
        decreases items@.len() - i,
    {
        let group = match decode_column_group(items[i]) {
            Ok(v) => v,
            Err(err) => {
                assert(column_group_spec(spec_items[i as int]) is None);
                return Err(err);
            },
        };
        out.push(group);
        i = i + 1;
    }
    let r = ColumnGroups { column_groups: out };
    assert(forall|k: int| 0 <= k < spec_items.len() ==> column_group_spec(spec_items[k]) is Some);
    assert(column_groups_spec(e@)->Some_0 =~= r@);
    Ok(r)
}

// ---------------------------------------------------------------------------
// Diagram
pub open spec fn tables_spec(e: ElemModel) -> Option<Seq<TableModel>> {
    let s = elems_named(e.children, "table"@);
    if forall|i: int| 0 <= i < s.len() ==> (#[trigger] table_spec(s[i])) is Some {
        Some(s.map_values(|x: ElemModel| table_spec(x)->Some_0))
    } else {
        None
    }
}

pub open spec fn settings_spec(e: ElemModel) -> Option<DiagramSettingsModel> {
    match child(e, "diagram_settings"@) {
        Some(s) => match child_text(s, "database"@) {
            Some(d) => Some(DiagramSettingsModel { database: d }),
            None => None,
        },
        None => None,
    }
}

/// Whether `groups` holds a group named `name`.
pub open spec fn has_group(groups: Seq<ColumnGroupModel>, name: Seq<char>) -> bool {
    exists|k: int| 0 <= k < groups.len() && (#[trigger] groups[k]).column_group_name == name
}

/// Every group reference in a column list names an existing group.
pub open spec fn columns_resolved(items: Seq<ColumnModel>, groups: Seq<ColumnGroupModel>) -> bool {
    forall|j: int|
        0 <= j < items.len() && (#[trigger] items[j]) is Group ==> has_group(
            groups,
            items[j]->Group_0,
        )
}

/// Every group reference in every table names an existing group.
pub open spec fn groups_resolved(tables: Seq<TableModel>, groups: Seq<ColumnGroupModel>) -> bool {
    forall|i: int| 0 <= i < tables.len() ==> columns_resolved(#[trigger] tables[i].columns, groups)
}

/// The diagram that a document's root element describes, if it is valid.
pub open spec fn diagram_spec(root: ElemModel) -> Option<DiagramModel> {
    let settings = settings_spec(root);
    let tables = match child(root, "diagram_walkers"@) {
        Some(w) => tables_spec(w),
        None => None,
    };
    let groups = column_groups_spec(root);
    if settings is Some && tables is Some && groups is Some && groups_resolved(
        tables->Some_0,
        groups->Some_0,
    ) {
        Some(
            DiagramModel {
                diagram_settings: settings->Some_0,
                tables: tables->Some_0,
                column_groups: groups->Some_0,
            },
        )
    } else {
        None
    }
}

fn decode_tables(e: &XmlElement) -> (r: Result<DiagramWalkers, DecodeError>)
    ensures
        decodes_as(r, tables_spec(e@)),
{
    let items = children_named(e, "table");
    let ghost spec_items = elems_named(e@.children, "table"@);
    let mut out: Vec<Table> = Vec::new();
    let mut i: usize = 0;
    while i < items.len()
        invariant
            i <= items@.len(),
            spec_items == elems_named(e@.children, "table"@),
            items@.len() == spec_items.len(),
            forall|k: int| 0 <= k < items@.len() ==> items@[k]@ == spec_items[k],
            out@.len() == i,
            forall|k: int|
                #![trigger spec_items[k]]
                0 <= k < i ==> table_spec(spec_items[k]) == Some(out@[k]@),
        decreases items@.len() - i,
    {
        let table = match decode_table(items[i]) {
            Ok(v) => v,
            Err(err) => {
                assert(table_spec(spec_items[i as int]) is None);
                return Err(err);
            },
        };
        out.push(table);
        i = i + 1;
    }
    let r = DiagramWalkers { tables: out };
    assert(forall|k: int| 0 <= k < spec_items.len() ==> table_spec(spec_items[k]) is Some);
    assert(tables_spec(e@)->Some_0 =~= r@);
    Ok(r)
}

pub fn decode_settings(e: &XmlElement) -> (r: Result<DiagramSettings, DecodeError>)
    ensures
        decodes_as(r, settings_spec(e@)),
{
    match find_child(e, "diagram_settings") {
        Some(s) => match required_text(s, "database") {
            Ok(database) => Ok(DiagramSettings { database }),
            Err(err) => Err(err),
        },
        None => Err(DecodeError::MissingField("diagram_settings".to_owned())),
    }
}

/// Whether a group named `name` exists.
pub fn find_group(groups: &ColumnGroups, name: &String) -> (r: bool)
    ensures
        r == has_group(groups@, name@),
{
    let mut k: usize = 0;
    while k < groups.column_groups.len()
        invariant
            k <= groups.column_groups@.len(),
            forall|m: int| 0 <= m < k ==> (#[trigger] groups@[m]).column_group_name != name@,
        decreases groups.column_groups@.len() - k,
    {
        if groups.column_groups[k].column_group_name == *name {
            assert(groups@[k as int].column_group_name == name@);
            return true;
        }
        k = k + 1;
    }
    false
}

/// Checks that every group reference in every table names an existing group.
pub fn check_group_references(walkers: &DiagramWalkers, groups: &ColumnGroups) -> (r: Result<
    (),
    DecodeError,
>)
    ensures
        r is Ok <==> groups_resolved(walkers@, groups@),
        r matches Err(err) ==> err is UnknownGroup,
{
    let mut i: usize = 0;
    while i < walkers.tables.len()
        invariant
            i <= walkers.tables@.len(),
            forall|m: int| 0 <= m < i ==> columns_resolved(#[trigger] walkers@[m].columns, groups@),
        decreases walkers.tables@.len() - i,
    {
        let items = &walkers.tables[i].columns.items;
        let mut j: usize = 0;
        while j < items.len()
            invariant
                i < walkers.tables@.len(),
                items@ == walkers.tables@[i as int].columns.items@,
                j <= items@.len(),
                forall|m: int|
                    0 <= m < j && (#[trigger] walkers@[i as int].columns[m]) is Group ==> has_group(
                        groups@,
                        walkers@[i as int].columns[m]->Group_0,
                    ),
            decreases items@.len() - j,
        {
            match &items[j] {
                Column::Group(name) => {
                    if !find_group(groups, name) {
                        assert(walkers@[i as int].columns[j as int] is Group);
                        assert(!columns_resolved(walkers@[i as int].columns, groups@));
                        return Err(DecodeError::UnknownGroup(name.clone()));
                    }
                },
                Column::Normal(_) => {},
            }
            j = j + 1;
        }
        i = i + 1;
    }
    Ok(())
}

/// Decodes a document's root element into a diagram. Succeeds exactly when
/// the tree is valid under the schema mapping and every group reference
/// resolves; the result is then the one that mapping describes.
pub fn decode_diagram(root: &XmlElement) -> (r: Result<Diagram, DecodeError>)
    ensures
        decodes_as(r, diagram_spec(root@)),
        ({
            let walkers = child(root@, "diagram_walkers"@);
            settings_spec(root@) is Some && column_groups_spec(root@) is Some && walkers is Some
                && tables_spec(walkers->Some_0) is Some && !groups_resolved(
                tables_spec(walkers->Some_0)->Some_0,
                column_groups_spec(root@)->Some_0,
            )
        }) ==> (r is Err && r->Err_0 is UnknownGroup),
{
    let diagram_settings = match decode_settings(root) {
        Ok(v) => v,
        Err(err) => return Err(err),
    };
    let diagram_walkers = match find_child(root, "diagram_walkers") {
        Some(w) => match decode_tables(w) {
            Ok(v) => v,
            Err(err) => return Err(err),
        },
        None => return Err(DecodeError::MissingField("diagram_walkers".to_owned())),
    };
    let column_groups = match decode_column_groups(root) {
        Ok(v) => v,
        Err(err) => return Err(err),
    };
    match check_group_references(&diagram_walkers, &column_groups) {
        Ok(()) => {},
        Err(err) => return Err(err),
    }
    Ok(Diagram { diagram_settings, diagram_walkers, column_groups })
}

} // verus!
