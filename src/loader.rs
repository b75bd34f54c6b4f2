//! The bulk loader's plan for one collection: the statements to run before
//! the load, the copy statement that opens the channel, the lines to stream
//! into it, and the statements to run after it finishes.
use vstd::prelude::*;

use crate::codec::{lemma_rows_round_trip, row_safe, row_text, rows_of_text, rows_text, split, split_text};
use crate::entities::{CommaDelimited, SqlInsert};

verus! {

/// The separator of constraint maintenance statements.
pub const STATEMENT_SEPARATOR: char = ';';

/// What the store runs to open a bulk channel into `header`.
pub open spec fn copy_text(header: Seq<char>) -> Seq<char> {
    "COPY "@ + header + " FROM STDIN WITH DELIMITER AS ',' NULL AS 'nul_val'"@
}

/// `parts` without its empty ones.
pub open spec fn drop_empty(parts: Seq<Seq<char>>) -> Seq<Seq<char>>
    decreases parts.len(),
{
    if parts.len() == 0 {
        seq![]
    } else if parts.last().len() == 0 {
        drop_empty(parts.drop_last())
    } else {
        drop_empty(parts.drop_last()).push(parts.last())
    }
}

/// The statements of a `;`-separated script, empty ones left out.
pub open spec fn statements(script: Option<Seq<char>>) -> Seq<Seq<char>> {
    match script {
        Some(s) => drop_empty(split(s, STATEMENT_SEPARATOR)),
        None => seq![],
    }
}

/// The lines of a stream written one after another.
pub open spec fn concat(lines: Seq<Seq<char>>) -> Seq<char>
    decreases lines.len(),
{
    if lines.len() == 0 {
        seq![]
    } else {
        concat(lines.drop_last()) + lines.last()
    }
}

/// The rows of a collection, in order.
pub open spec fn rows_of<T: CommaDelimited>(collection: Seq<T>) -> Seq<Seq<Option<Seq<char>>>> {
    collection.map_values(|e: T| e.row())
}

/// What the loader does for one collection, in order: run `pre_load`, open
/// a channel with `copy_statement`, write `lines`, finish the channel, run
/// `post_load`.
#[derive(Debug)]
pub struct LoadPlan {
    pub pre_load: Vec<String>,
    pub copy_statement: String,
    pub lines: Vec<String>,
    pub post_load: Vec<String>,
}

/// The statement that opens a bulk channel into `header`.
pub fn copy_statement(header: &str) -> (r: String)
    ensures
        r@ == copy_text(header@),
{
    let mut s = String::from_str("COPY ");
    s.append(header);
    s.append(" FROM STDIN WITH DELIMITER AS ',' NULL AS 'nul_val'");
    s
}

/// The statements of a `;`-separated script, empty ones left out.
pub fn split_statements(script: Option<&str>) -> (r: Vec<String>)
    ensures
        r.deep_view() == statements(
            match script {
                Some(s) => Some(s@),
                None => None,
            },
        ),
{
    match script {
        None => Vec::new(),
        Some(s) => {
            let pieces = split_text(s, STATEMENT_SEPARATOR);
            let mut out: Vec<String> = Vec::new();
            let mut i: usize = 0;
            while i < pieces.len()
                invariant
                    0 <= i <= pieces.len(),
                    pieces.deep_view() == split(s@, STATEMENT_SEPARATOR),
                    out.deep_view() == drop_empty(pieces.deep_view().subrange(0, i as int)),
                decreases pieces.len() - i,
            {
                let ghost pv = pieces.deep_view();
                assert(pv.subrange(0, i + 1).drop_last() =~= pv.subrange(0, i as int));
                assert(pv[i as int] == pieces@[i as int]@);
                let piece = pieces[i].clone();
                if piece.unicode_len() > 0 {
                    let ghost before = out.deep_view();
                    out.push(piece);
                    assert(out.deep_view() =~= before.push(pv[i as int]));
                }
                i = i + 1;
            }
            assert(pieces.deep_view().subrange(0, i as int) =~= pieces.deep_view());
            out
        },
    }
}

proof fn lemma_concat_rows<T: CommaDelimited>(collection: Seq<T>, lines: Seq<Seq<char>>)
    requires
        lines.len() == collection.len(),
        forall|i: int| 0 <= i < lines.len() ==> lines[i] == row_text((#[trigger] collection[i]).row()),
    ensures
        concat(lines) == rows_text(rows_of(collection)),
    decreases lines.len(),
{
    if lines.len() > 0 {
        let init = collection.drop_last();
        assert forall|i: int| 0 <= i < lines.drop_last().len() implies lines.drop_last()[i]
            == row_text((#[trigger] init[i]).row()) by {
            assert(init[i] == collection[i]);
        }
        lemma_concat_rows(init, lines.drop_last());
        assert(rows_of(collection).drop_last() =~= rows_of(init));
        assert(rows_of(collection).last() == collection.last().row());
        assert(lines.last() == lines[lines.len() - 1]);
        assert(collection.last() == collection[collection.len() - 1]);
    }
}

/// Plans the load of `collection`: the statements of `pre_load` and
/// `post_load`, the copy statement of the type's table, and one line per
/// value, in order, whose concatenation is the collection's text.
pub fn load_plan<T: SqlInsert + CommaDelimited>(
    collection: &Vec<T>,
    pre_load: Option<&str>,
    post_load: Option<&str>,
) -> (r: LoadPlan)
    requires
        forall|i: int| 0 <= i < collection@.len() ==> (#[trigger] collection@[i]).valid(),
    ensures
        r.pre_load.deep_view() == statements(
            match pre_load {
                Some(s) => Some(s@),
                None => None,
            },
        ),
        r.post_load.deep_view() == statements(
            match post_load {
                Some(s) => Some(s@),
                None => None,
            },
        ),
        r.copy_statement@ == copy_text(T::header()),
        r.lines@.len() == collection@.len(),
        forall|i: int|
            0 <= i < collection@.len() ==> (#[trigger] r.lines@[i])@ == row_text(collection@[i].row()),
        concat(r.lines.deep_view()) == rows_text(rows_of(collection@)),
{
    let header = T::insert_header();
    let copy = copy_statement(header.as_str());
    let mut lines: Vec<String> = Vec::new();
    let mut i: usize = 0;
    while i < collection.len()
        invariant
            0 <= i <= collection@.len(),
            forall|k: int| 0 <= k < collection@.len() ==> (#[trigger] collection@[k]).valid(),
            lines@.len() == i,
            forall|k: int| 0 <= k < i ==> (#[trigger] lines@[k])@ == row_text(collection@[k].row()),
        decreases collection@.len() - i,
    {
        lines.push(collection[i].to_csv());
        i = i + 1;
    }
    proof {
        let lv = lines.deep_view();
        assert forall|k: int| 0 <= k < lv.len() implies lv[k] == row_text(
            (#[trigger] collection@[k]).row(),
        ) by {
            assert(lv[k] == lines@[k]@);
        }
        lemma_concat_rows(collection@, lv);
    }
    LoadPlan {
        pre_load: split_statements(pre_load),
        copy_statement: copy,
        lines,
        post_load: split_statements(post_load),
    }
}

/// A collection whose rows the bulk format carries unchanged survives a
/// load's text: cut back into lines and fields, with the sentinel read as
/// absent, it gives every value's fields back, in order.
pub proof fn lemma_collection_round_trip<T: CommaDelimited>(collection: Seq<T>)
    requires
        forall|i: int| 0 <= i < collection.len() ==> row_safe((#[trigger] collection[i]).row()),
    ensures
        rows_of_text(rows_text(rows_of(collection))) == rows_of(collection),
{
    let rows = rows_of(collection);
    assert forall|i: int| 0 <= i < rows.len() implies row_safe(#[trigger] rows[i]) by {
        assert(rows[i] == collection[i].row());
    }
    lemma_rows_round_trip(rows);
}

} // verus!
