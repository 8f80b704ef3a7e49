use vstd::prelude::*;

use crate::doc::{entries_of, lemma_entries_of, lemma_trees_of, trees_of, Tree, Value};

verus! {

/// One line of the document panel. Scalars are kept as values; their text is left to
/// the code that draws the panel.
#[derive(Debug, PartialEq)]
pub enum Row {
    /// `key: scalar`
    Entry(usize, String, Value),
    /// `key:`, above the items of a sequence
    Heading(usize, String),
    /// `- scalar`, an item of a sequence
    Item(usize, Value),
    /// a document that is one scalar
    Top(Value),
}

pub enum RowView {
    Entry(int, Seq<char>, Tree),
    Heading(int, Seq<char>),
    Item(int, Tree),
    Top(Tree),
}

impl View for Row {
    type V = RowView;

    open spec fn view(&self) -> RowView {
        match self {
            Row::Entry(i, k, v) => RowView::Entry(*i as int, k@, v@),
            Row::Heading(i, k) => RowView::Heading(*i as int, k@),
            Row::Item(i, v) => RowView::Item(*i as int, v@),
            Row::Top(v) => RowView::Top(v@),
        }
    }
}

pub open spec fn rows_view(s: Seq<Row>) -> Seq<RowView> {
    s.map_values(|r: Row| r@)
}

pub open spec fn is_scalar(t: Tree) -> bool {
    !(t is Sequence || t is Mapping)
}

/// The indentation one level deeper.
pub open spec fn deeper(i: int) -> int {
    if i < usize::MAX {
        i + 1
    } else {
        i
    }
}

/// The rows of `t` drawn at indentation `ind`. A mapping gives a row per scalar entry,
/// a heading and the rows of the items for a sequence entry, and the rows of a nested
/// mapping one level deeper. A sequence gives an item row per scalar and the rows of
/// nested collections one level deeper. A scalar gives a row only as the whole document.
pub open spec fn rows(t: Tree, ind: int) -> Seq<RowView>
    decreases t,
{
    match t {
        Tree::Mapping(es) => entry_rows(es, ind),
        Tree::Sequence(items) => item_rows(items, ind),
        _ => if ind == 0 {
            seq![RowView::Top(t)]
        } else {
            Seq::empty()
        },
    }
}

pub open spec fn entry_rows(es: Seq<(Seq<char>, Tree)>, ind: int) -> Seq<RowView>
    decreases es,
{
    if es.len() == 0 {
        Seq::empty()
    } else {
        let (k, v) = es[es.len() - 1];
        entry_rows(es.subrange(0, es.len() - 1), ind) + match v {
            Tree::Sequence(items) => seq![RowView::Heading(ind, k)] + nested_rows(
                items,
                deeper(ind),
            ),
            Tree::Mapping(_) => rows(v, deeper(ind)),
            _ => seq![RowView::Entry(ind, k, v)],
        }
    }
}

pub open spec fn item_rows(items: Seq<Tree>, ind: int) -> Seq<RowView>
    decreases items,
{
    if items.len() == 0 {
        Seq::empty()
    } else {
        let v = items[items.len() - 1];
        item_rows(items.subrange(0, items.len() - 1), ind) + if is_scalar(v) {
            seq![RowView::Item(ind, v)]
        } else {
            rows(v, deeper(ind))
        }
    }
}

pub open spec fn nested_rows(items: Seq<Tree>, ind: int) -> Seq<RowView>
    decreases items,
{
    if items.len() == 0 {
        Seq::empty()
    } else {
        nested_rows(items.subrange(0, items.len() - 1), ind) + rows(
            items[items.len() - 1],
            ind,
        )
    }
}

} // verus!

verus! {

fn push_row(lines: &mut Vec<Row>, r: Row)
    ensures
        rows_view(final(lines)@) == rows_view(old(lines)@).push(r@),
{
    lines.push(r);
    proof {
        assert(rows_view(lines@) =~= rows_view(old(lines)@).push(r@));
    }
}

/// Appends the rows of `value`, drawn at `indent_level`, to `lines`.
#[verifier::loop_isolation(false)]
pub fn traverse_yaml(value: &Value, lines: &mut Vec<Row>, indent_level: usize)
    ensures
        rows_view(final(lines)@) == rows_view(old(lines)@) + rows(value@, indent_level as int),
    decreases value,
{
    let ind = indent_level;
    let next = if indent_level < usize::MAX {
        indent_level + 1
    } else {
        indent_level
    };
    let ghost start = rows_view(lines@);
    match value {
        Value::Mapping(map) => {
            let ghost es = entries_of(map@);
            proof {
                lemma_entries_of(map@);
                assert(es.subrange(0, 0) =~= Seq::<(Seq<char>, Tree)>::empty());
                assert(rows_view(lines@) =~= start + entry_rows(es.subrange(0, 0), ind as int));
            }
            let mut i: usize = 0;
            while i < map.len()
                invariant
                    i <= map.len(),
                    rows_view(lines@) == start + entry_rows(es.subrange(0, i as int), ind as int),
                decreases map.len() - i,
            {
                let key = &map[i].0;
                let v = &map[i].1;
                proof {
                    assert(decreases_to!(*value => (*value)->Mapping_0));
                    assert(decreases_to!(*map => map@));
                    assert(decreases_to!(map@ => map@[i as int]));
                    assert(decreases_to!(map@[i as int] => map@[i as int].1));
                }
                match v {
                    Value::Sequence(items) => {
                        push_row(lines, Row::Heading(ind, key.clone()));
                        let ghost ts = trees_of(items@);
                        let ghost mid = rows_view(lines@);
                        proof {
                            lemma_trees_of(items@);
                            assert(ts.subrange(0, 0) =~= Seq::<Tree>::empty());
                            assert(rows_view(lines@) =~= mid + nested_rows(
                                ts.subrange(0, 0),
                                next as int,
                            ));
                        }
                        let mut j: usize = 0;
                        while j < items.len()
                            invariant
                                j <= items.len(),
                                rows_view(lines@) == mid + nested_rows(
                                    ts.subrange(0, j as int),
                                    next as int,
                                ),
                            decreases items.len() - j,
                        {
                            proof {
                                assert(decreases_to!(map@[i as int].1 => items@));
                                assert(decreases_to!(items@ => items@[j as int]));
                            }
                            traverse_yaml(&items[j], lines, next);
                            proof {
                                let sub = ts.subrange(0, j + 1);
                                assert(sub.subrange(0, j as int) =~= ts.subrange(0, j as int));
                                assert(rows_view(lines@) =~= mid + nested_rows(sub, next as int));
                            }
                            j = j + 1;
                        }
                        proof {
                            assert(ts.subrange(0, items@.len() as int) =~= ts);
                        }
                    },
                    Value::Mapping(_) => {
                        traverse_yaml(v, lines, next);
                    },
                    _ => {
                        push_row(lines, Row::Entry(ind, key.clone(), v.deep_clone()));
                    },
                }
                proof {
                    let sub = es.subrange(0, i + 1);
                    assert(sub.subrange(0, i as int) =~= es.subrange(0, i as int));
                    assert(sub[sub.len() - 1] == es[i as int]);
                    assert(rows_view(lines@) =~= start + entry_rows(sub, ind as int));
                }
                i = i + 1;
            }
            proof {
                assert(es.subrange(0, map@.len() as int) =~= es);
            }
        },
        Value::Sequence(items) => {
            let ghost ts = trees_of(items@);
            proof {
                lemma_trees_of(items@);
                assert(ts.subrange(0, 0) =~= Seq::<Tree>::empty());
                assert(rows_view(lines@) =~= start + item_rows(ts.subrange(0, 0), ind as int));
            }
            let mut i: usize = 0;
            while i < items.len()
                invariant
                    i <= items.len(),
                    rows_view(lines@) == start + item_rows(ts.subrange(0, i as int), ind as int),
                decreases items.len() - i,
            {
                proof {
                    assert(decreases_to!(*value => (*value)->Sequence_0));
                    assert(decreases_to!(*items => items@));
                    assert(decreases_to!(items@ => items@[i as int]));
                }
                let item = &items[i];
                match item {
                    Value::Sequence(_) | Value::Mapping(_) => {
                        traverse_yaml(item, lines, next);
                    },
                    _ => {
                        push_row(lines, Row::Item(ind, item.deep_clone()));
                    },
                }
                proof {
                    let sub = ts.subrange(0, i + 1);
                    assert(sub.subrange(0, i as int) =~= ts.subrange(0, i as int));
                    assert(rows_view(lines@) =~= start + item_rows(sub, ind as int));
                }
                i = i + 1;
            }
            proof {
                assert(ts.subrange(0, items@.len() as int) =~= ts);
            }
        },
        _ => {
            if indent_level == 0 {
                push_row(lines, Row::Top(value.deep_clone()));
            } else {
                proof {
                    assert(rows_view(lines@) =~= start + rows(value@, ind as int));
                }
            }
        },
    }
}

/// The rows of the document panel for `yaml_value`.
pub fn yaml_to_lines(yaml_value: &Value) -> (r: Vec<Row>)
    ensures
        rows_view(r@) == rows(yaml_value@, 0),
{
    let mut lines: Vec<Row> = Vec::new();
    proof {
        assert(rows_view(lines@) =~= Seq::<RowView>::empty());
    }
    traverse_yaml(yaml_value, &mut lines, 0);
    proof {
        assert(rows_view(lines@) =~= rows(yaml_value@, 0));
    }
    lines
}

} // verus!
