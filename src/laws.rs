//! Properties that relate several functions of the library, proved over the
//! spec functions that their contracts use.
use vstd::prelude::*;

use crate::decode::{
    column_items_spec, columns_resolved, connections_spec,
    diagram_spec, groups_resolved, has_group, list_items, normal_column_spec, relationship_spec,
    table_spec, tables_spec,
};
use crate::dtos::column_groups as dto_groups;
use crate::dtos::diagram as dto_diagram;
use crate::dtos::diagram_walkers as dto;
use crate::entities::column_groups::{ColumnGroupModel, GroupColumnModel};
use crate::entities::diagram::{Diagram, DiagramModel};
use crate::entities::diagram_walkers::{
    CompoundUniqueKeyModel, NormalColumnModel, RelationshipModel, TableModel,
};
use crate::entities::diagram_walkers::ColumnModel;
use crate::error::DecodeError;
use crate::open_outcome;
use crate::xml::{child, child_text, content_of, elems_named, ElemModel, NodeModel};

verus! {

/// Reading is deterministic: two reads of the same document either both
/// fail or both succeed with structurally equal diagrams.
pub proof fn open_is_deterministic(
    document: &str,
    first: Result<Diagram, DecodeError>,
    second: Result<Diagram, DecodeError>,
)
    requires
        open_outcome(document, first),
        open_outcome(document, second),
    ensures
        first is Ok <==> second is Ok,
        first is Ok ==> first->Ok_0@ == second->Ok_0@,
{
}

/// Whether a decoded column item stands for the column-list element `x`.
pub open spec fn item_of(x: ElemModel, item: ColumnModel) -> bool {
    if x.name == "column_group"@ {
        item == ColumnModel::Group(content_of(x))
    } else {
        normal_column_spec(x) matches Some(c) && item == ColumnModel::Normal(c)
    }
}

/// Whether every node of a column list is a `normal_column` or a
/// `column_group` element.
pub open spec fn only_column_items(nodes: Seq<NodeModel>) -> bool {
    forall|i: int|
        0 <= i < nodes.len() ==> (#[trigger] nodes[i] matches NodeModel::Element(x) && (x.name
            == "normal_column"@ || x.name == "column_group"@))
}

/// Order is kept: when a column list interleaves normal columns and group
/// references, the decoded items stand for the elements one to one, in the
/// same order.
pub proof fn column_order_is_kept(nodes: Seq<NodeModel>)
    requires
        only_column_items(nodes),
        column_items_spec(nodes) is Some,
    ensures
        column_items_spec(nodes)->Some_0.len() == nodes.len(),
        forall|i: int|
            0 <= i < nodes.len() ==> item_of(
                (#[trigger] nodes[i])->Element_0,
                column_items_spec(nodes)->Some_0[i],
            ),
    decreases nodes.len(),
{
    if nodes.len() > 0 {
        let prev = nodes.drop_last();
        assert(only_column_items(prev)) by {
            assert forall|i: int| 0 <= i < prev.len() implies (#[trigger] prev[i] matches NodeModel::Element(x) && (x.name
                == "normal_column"@ || x.name == "column_group"@)) by {
                assert(prev[i] == nodes[i]);
            }
        }
        column_order_is_kept(prev);
        let last = nodes.last();
        assert(last == nodes[nodes.len() - 1]);
        let x = last->Element_0;
        let prev_items = column_items_spec(prev)->Some_0;
        let items = column_items_spec(nodes)->Some_0;
        reveal_strlit("normal_column");
        reveal_strlit("column_group");
        assert("normal_column"@ != "column_group"@) by {
            assert("normal_column"@[0] != "column_group"@[0]);
        }
        if x.name == "normal_column"@ {
            assert(items == prev_items.push(ColumnModel::Normal(normal_column_spec(x)->Some_0)));
        } else {
            assert(x.name == "column_group"@);
            assert(items == prev_items.push(ColumnModel::Group(content_of(x))));
        }
        assert forall|i: int| 0 <= i < nodes.len() implies item_of(
            (#[trigger] nodes[i])->Element_0,
            column_items_spec(nodes)->Some_0[i],
        ) by {
            if i < prev.len() {
                assert(prev[i] == nodes[i]);
                assert(items[i] == prev_items[i]);
            }
        }
    }
}

/// The relationships of a table are always a sequence: with zero, one or
/// many `relationship` elements, or no `connections` element at all, a table
/// whose relationships are each valid decodes them into a sequence of the
/// same length, in order.
pub proof fn relationship_count_is_kept(e: ElemModel)
    requires
        forall|i: int|
            0 <= i < list_items(e, "connections"@, "relationship"@).len() ==> (
            #[trigger] relationship_spec(list_items(e, "connections"@, "relationship"@)[i]))
                is Some,
    ensures
        connections_spec(e) is Some,
        connections_spec(e)->Some_0.len() == list_items(e, "connections"@, "relationship"@).len(),
        forall|i: int|
            0 <= i < connections_spec(e)->Some_0.len() ==> Some(
                #[trigger] connections_spec(e)->Some_0[i],
            ) == relationship_spec(list_items(e, "connections"@, "relationship"@)[i]),
        child(e, "connections"@) is None ==> connections_spec(e) == Some(
            Seq::<crate::entities::diagram_walkers::RelationshipModel>::empty(),
        ),
{
    if child(e, "connections"@) is None {
        assert(connections_spec(e)->Some_0 =~= Seq::empty());
    }
}

/// A table element without a `physical_name` never decodes, and a decoded
/// table never has an empty physical name.
pub proof fn physical_name_is_required(e: ElemModel)
    ensures
        child(e, "physical_name"@) is None ==> table_spec(e) is None,
        table_spec(e) matches Some(t) ==> t.physical_name.len() > 0,
{
}

/// A diagram with a table element that lacks a `physical_name` does not
/// decode.
pub proof fn diagram_needs_table_names(root: ElemModel, w: ElemModel, i: int)
    requires
        child(root, "diagram_walkers"@) == Some(w),
        0 <= i < elems_named(w.children, "table"@).len(),
        child(elems_named(w.children, "table"@)[i], "physical_name"@) is None,
    ensures
        diagram_spec(root) is None,
{
    assert(table_spec(elems_named(w.children, "table"@)[i]) is None);
    assert(tables_spec(w) is None);
}

/// In a decoded diagram every group reference of every table names a column
/// group of the diagram.
pub proof fn group_references_resolve(root: ElemModel, d: DiagramModel, i: int, j: int)
    requires
        diagram_spec(root) == Some(d),
        0 <= i < d.tables.len(),
        0 <= j < d.tables[i].columns.len(),
        d.tables[i].columns[j] is Group,
    ensures
        has_group(d.column_groups, d.tables[i].columns[j]->Group_0),
{
    assert(columns_resolved(d.tables[i].columns, d.column_groups));
}

proof fn relationship_lossless(d: dto::Relationship, a: RelationshipModel, b: RelationshipModel)
    requires
        d.projects(a),
        d.projects(b),
    ensures
        a == b,
{
    assert forall|i: int| 0 <= i < a.fk_columns.len() implies a.fk_columns[i]
        == b.fk_columns[i] by {
        assert(d.fk_columns.fk_column@[i].projects(a.fk_columns[i]));
        assert(d.fk_columns.fk_column@[i].projects(b.fk_columns[i]));
    }
    assert(a.fk_columns =~= b.fk_columns);
}

proof fn normal_column_lossless(d: dto::NormalColumn, a: NormalColumnModel, b: NormalColumnModel)
    requires
        d.projects(a),
        d.projects(b),
    ensures
        a == b,
{
}

proof fn column_lossless(d: dto::Column, a: ColumnModel, b: ColumnModel)
    requires
        d.projects(a),
        d.projects(b),
    ensures
        a == b,
{
    match (d, a, b) {
        (dto::Column::Normal(c), ColumnModel::Normal(x), ColumnModel::Normal(y)) => {
            normal_column_lossless(c, x, y);
        },
        _ => {},
    }
}

proof fn key_lossless(d: dto::CompoundUniqueKey, a: CompoundUniqueKeyModel, b: CompoundUniqueKeyModel)
    requires
        d.projects(a),
        d.projects(b),
    ensures
        a == b,
{
    assert forall|i: int| 0 <= i < a.column_ids.len() implies a.column_ids[i]
        == b.column_ids[i] by {
        assert(d.column_ids@[i]@ == a.column_ids[i]);
        assert(d.column_ids@[i]@ == b.column_ids[i]);
    }
    assert(a.column_ids =~= b.column_ids);
}

proof fn table_lossless(d: dto::Table, a: TableModel, b: TableModel)
    requires
        d.projects(a),
        d.projects(b),
    ensures
        a == b,
{
    let rels = d.connections.relationships->Some_0;
    assert forall|i: int| 0 <= i < a.connections.len() implies a.connections[i]
        == b.connections[i] by {
        relationship_lossless(rels@[i], a.connections[i], b.connections[i]);
    }
    assert(a.connections =~= b.connections);
    let items = d.columns.items->Some_0;
    assert forall|i: int| 0 <= i < a.columns.len() implies a.columns[i] == b.columns[i] by {
        column_lossless(items@[i], a.columns[i], b.columns[i]);
    }
    assert(a.columns =~= b.columns);
    let keys = d.compound_unique_key_list.compound_unique_keys->Some_0;
    assert forall|i: int| 0 <= i < a.compound_unique_keys.len() implies a.compound_unique_keys[i]
        == b.compound_unique_keys[i] by {
        key_lossless(keys@[i], a.compound_unique_keys[i], b.compound_unique_keys[i]);
    }
    assert(a.compound_unique_keys =~= b.compound_unique_keys);
}

proof fn group_lossless(d: dto_groups::ColumnGroup, a: ColumnGroupModel, b: ColumnGroupModel)
    requires
        d.projects(a),
        d.projects(b),
    ensures
        a == b,
{
    let cols = d.columns.normal_columns->Some_0;
    assert forall|i: int| 0 <= i < a.columns.len() implies a.columns[i] == b.columns[i] by {
        let c = cols@[i];
        assert(c.projects(a.columns[i]) && c.projects(b.columns[i]));
    }
    assert(a.columns =~= b.columns);
}

/// The projection is lossless: a transport-shaped diagram determines, field
/// by field, the canonical diagram it was projected from.
pub proof fn projection_is_lossless(d: dto_diagram::Diagram, a: DiagramModel, b: DiagramModel)
    requires
        d.projects(a),
        d.projects(b),
    ensures
        a == b,
{
    let tables = d.diagram_walkers.tables->Some_0;
    assert forall|i: int| 0 <= i < a.tables.len() implies a.tables[i] == b.tables[i] by {
        table_lossless(tables@[i], a.tables[i], b.tables[i]);
    }
    assert(a.tables =~= b.tables);
    let groups = d.column_groups.column_groups->Some_0;
    assert forall|i: int| 0 <= i < a.column_groups.len() implies a.column_groups[i]
        == b.column_groups[i] by {
        group_lossless(groups@[i], a.column_groups[i], b.column_groups[i]);
    }
    assert(a.column_groups =~= b.column_groups);
}

/// Projecting a decoded diagram keeps every field: the copy carries exactly
/// the canonical diagram that the document's tree describes.
pub proof fn projection_of_decoded(root: ElemModel, e: Diagram, d: dto_diagram::Diagram)
    requires
        diagram_spec(root) == Some(e@),
        d.projects(e@),
    ensures
        forall|m: DiagramModel| d.projects(m) ==> m == diagram_spec(root)->Some_0,
{
    assert forall|m: DiagramModel| d.projects(m) implies m == diagram_spec(root)->Some_0 by {
        projection_is_lossless(d, m, e@);
    }
}

/// The two-table scenario: when a document that decodes has database
/// `MySQL` and exactly two table elements, `MEMBERS` then `MEMBER_PROFILES`,
/// the second with one relationship `FK_MEMBER_PROFILES_MEMBERS` of
/// cardinalities `1`/`0..1` and delete action `RESTRICT`, then the diagram
/// holds exactly these two tables in that order, that one relationship, and
/// that database.
pub proof fn members_scenario(root: ElemModel, w: ElemModel, t0: ElemModel, t1: ElemModel, r: ElemModel)
    requires
        diagram_spec(root) is Some,
        child(root, "diagram_settings"@) is Some,
        child_text(child(root, "diagram_settings"@)->Some_0, "database"@) == Some("MySQL"@),
        child(root, "diagram_walkers"@) == Some(w),
        elems_named(w.children, "table"@) == seq![t0, t1],
        child_text(t0, "physical_name"@) == Some("MEMBERS"@),
        child_text(t1, "physical_name"@) == Some("MEMBER_PROFILES"@),
        list_items(t1, "connections"@, "relationship"@) == seq![r],
        child_text(r, "name"@) == Some("FK_MEMBER_PROFILES_MEMBERS"@),
        child_text(r, "parent_cardinality"@) == Some("1"@),
        child_text(r, "child_cardinality"@) == Some("0..1"@),
        child_text(r, "on_delete_action"@) == Some("RESTRICT"@),
    ensures
        ({
            let d = diagram_spec(root)->Some_0;
            &&& d.diagram_settings.database == "MySQL"@
            &&& d.tables.len() == 2
            &&& d.tables[0].physical_name == "MEMBERS"@
            &&& d.tables[1].physical_name == "MEMBER_PROFILES"@
            &&& d.tables[1].connections.len() == 1
            &&& d.tables[1].connections[0].name == "FK_MEMBER_PROFILES_MEMBERS"@
            &&& d.tables[1].connections[0].parent_cardinality == "1"@
            &&& d.tables[1].connections[0].child_cardinality == "0..1"@
            &&& d.tables[1].connections[0].on_delete_action == "RESTRICT"@
        }),
{
    let ts = elems_named(w.children, "table"@);
    assert(ts[0] == t0 && ts[1] == t1);
    assert(tables_spec(w) is Some);
    assert(table_spec(ts[0]) is Some);
    assert(table_spec(ts[1]) is Some);
    let rels = list_items(t1, "connections"@, "relationship"@);
    assert(rels[0] == r);
    assert(connections_spec(t1) is Some);
    assert(relationship_spec(rels[0]) is Some);
}

} // verus!
