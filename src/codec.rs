//! The delimited row format of the bulk loader: one line per entity, fields
//! separated by `,`, an absent value written as the `nul_val` sentinel.
use vstd::prelude::*;

verus! {

/// The field separator of the bulk format.
pub const DELIMITER: char = ',';

/// The line terminator of the bulk format.
pub const LINE_END: char = '\n';

/// The literal that stands for an absent value.
pub open spec fn null_token() -> Seq<char> {
    seq!['n', 'u', 'l', '_', 'v', 'a', 'l']
}

/// The text of one field: its value, or the sentinel when absent.
pub open spec fn field_text(f: Option<Seq<char>>) -> Seq<char> {
    match f {
        Some(t) => t,
        None => null_token(),
    }
}

/// The texts of a row's fields, in order.
pub open spec fn field_texts(fields: Seq<Option<Seq<char>>>) -> Seq<Seq<char>> {
    fields.map_values(|f: Option<Seq<char>>| field_text(f))
}

/// `parts` written one after another with `sep` between neighbours.
pub open spec fn join(parts: Seq<Seq<char>>, sep: char) -> Seq<char>
    decreases parts.len(),
{
    if parts.len() == 0 {
        seq![]
    } else if parts.len() == 1 {
        parts[0]
    } else {
        join(parts.drop_last(), sep).push(sep) + parts.last()
    }
}

/// `s` cut at every `sep`; always at least one (possibly empty) piece.
pub open spec fn split(s: Seq<char>, sep: char) -> Seq<Seq<char>>
    decreases s.len(),
{
    if s.len() == 0 {
        seq![seq![]]
    } else {
        let rest = split(s.drop_last(), sep);
        if s.last() == sep {
            rest.push(seq![])
        } else {
            rest.update(rest.len() - 1, rest.last().push(s.last()))
        }
    }
}

/// The line that the bulk format holds for one row.
pub open spec fn row_text(fields: Seq<Option<Seq<char>>>) -> Seq<char> {
    join(field_texts(fields), DELIMITER).push(LINE_END)
}

/// The lines of a whole collection of rows, in order.
pub open spec fn rows_text(rows: Seq<Seq<Option<Seq<char>>>>) -> Seq<char>
    decreases rows.len(),
{
    if rows.len() == 0 {
        seq![]
    } else {
        rows_text(rows.drop_last()) + row_text(rows.last())
    }
}

/// One piece of a line read back: the sentinel reads as absent.
pub open spec fn read_field(p: Seq<char>) -> Option<Seq<char>> {
    if p == null_token() {
        None
    } else {
        Some(p)
    }
}

/// The fields of one line without its terminator.
pub open spec fn fields_of(line: Seq<char>) -> Seq<Option<Seq<char>>> {
    split(line, DELIMITER).map_values(|p: Seq<char>| read_field(p))
}

/// The fields of one line, with its terminator if it has one.
pub open spec fn fields_of_line(line: Seq<char>) -> Seq<Option<Seq<char>>> {
    if line.len() > 0 && line.last() == LINE_END {
        fields_of(line.drop_last())
    } else {
        fields_of(line)
    }
}

/// The rows of a text made of terminated lines.
pub open spec fn rows_of_text(text: Seq<char>) -> Seq<Seq<Option<Seq<char>>>> {
    split(text, LINE_END).drop_last().map_values(|l: Seq<char>| fields_of(l))
}

/// A value that the format carries unchanged: no delimiter, no line end,
/// and not the sentinel itself.
pub open spec fn text_safe(t: Seq<char>) -> bool {
    &&& !t.contains(DELIMITER)
    &&& !t.contains(LINE_END)
    &&& t != null_token()
}

/// A field that the format carries unchanged.
pub open spec fn field_safe(f: Option<Seq<char>>) -> bool {
    match f {
        Some(t) => text_safe(t),
        None => true,
    }
}

/// A row that the format carries unchanged: at least one field, each safe.
pub open spec fn row_safe(fields: Seq<Option<Seq<char>>>) -> bool {
    fields.len() > 0 && forall|i: int| 0 <= i < fields.len() ==> field_safe(#[trigger] fields[i])
}

pub proof fn lemma_split_nonempty(s: Seq<char>, sep: char)
    ensures
        split(s, sep).len() >= 1,
    decreases s.len(),
{
    if s.len() > 0 {
        lemma_split_nonempty(s.drop_last(), sep);
    }
}

proof fn lemma_split_append_plain(s: Seq<char>, t: Seq<char>, sep: char)
    requires
        !t.contains(sep),
    ensures
        split(s + t, sep) == split(s, sep).update(
            split(s, sep).len() - 1,
            split(s, sep).last() + t,
        ),
    decreases t.len(),
{
    lemma_split_nonempty(s, sep);
    if t.len() == 0 {
        assert(s + t =~= s);
        assert(split(s, sep).last() + t =~= split(s, sep).last());
        assert(split(s, sep).update(split(s, sep).len() - 1, split(s, sep).last())
            =~= split(s, sep));
    } else {
        let t0 = t.drop_last();
        assert(!t0.contains(sep)) by {
            if t0.contains(sep) {
                let k = choose|k: int| 0 <= k < t0.len() && t0[k] == sep;
                assert(t[k] == sep);
            }
        }
        lemma_split_append_plain(s, t0, sep);
        assert((s + t).drop_last() =~= s + t0);
        assert((s + t).last() == t.last());
        assert(t.last() != sep) by {
            assert(t[t.len() - 1] == t.last());
        }
        assert((split(s, sep).last() + t0).push(t.last()) =~= split(s, sep).last() + t);
        assert(split(s + t, sep) =~= split(s, sep).update(
            split(s, sep).len() - 1,
            split(s, sep).last() + t,
        ));
    }
}

proof fn lemma_split_after_sep(s: Seq<char>, t: Seq<char>, sep: char)
    requires
        !t.contains(sep),
    ensures
        split(s.push(sep) + t, sep) == split(s, sep).push(t),
{
    lemma_split_append_plain(s.push(sep), t, sep);
    assert(s.push(sep).drop_last() =~= s);
    let a = split(s, sep).push(seq![]);
    assert(split(s.push(sep), sep) == a);
    assert(a.last() + t =~= t);
    assert(a.update(a.len() - 1, t) =~= split(s, sep).push(t));
}

/// Cutting at `sep` undoes joining with `sep`, when no part holds `sep`.
pub proof fn lemma_split_join(parts: Seq<Seq<char>>, sep: char)
    requires
        parts.len() > 0,
        forall|i: int| 0 <= i < parts.len() ==> !(#[trigger] parts[i]).contains(sep),
    ensures
        split(join(parts, sep), sep) == parts,
    decreases parts.len(),
{
    if parts.len() == 1 {
        let e: Seq<char> = seq![];
        lemma_split_append_plain(e, parts[0], sep);
        assert(e + parts[0] =~= parts[0]);
        assert(split(e, sep) =~= seq![e]);
        assert(e + parts[0] =~= parts[0]);
        assert(seq![e].update(0, parts[0]) =~= parts);
    } else {
        let init = parts.drop_last();
        lemma_split_join(init, sep);
        assert(parts.last() == parts[parts.len() - 1]);
        lemma_split_after_sep(join(init, sep), parts.last(), sep);
        assert(init.push(parts.last()) =~= parts);
    }
}

} // verus!

verus! {

proof fn lemma_join_no_char(parts: Seq<Seq<char>>, sep: char, c: char)
    requires
        sep != c,
        forall|i: int| 0 <= i < parts.len() ==> !(#[trigger] parts[i]).contains(c),
    ensures
        !join(parts, sep).contains(c),
    decreases parts.len(),
{
    if parts.len() > 1 {
        let init = parts.drop_last();
        lemma_join_no_char(init, sep, c);
        let j = join(parts, sep);
        let a = join(init, sep).push(sep);
        assert(parts.last() == parts[parts.len() - 1]);
        if j.contains(c) {
            let k = choose|k: int| 0 <= k < j.len() && j[k] == c;
            if k < a.len() {
                if k < a.len() - 1 {
                    assert(join(init, sep)[k] == c);
                }
            } else {
                assert(parts.last()[k - a.len()] == c);
            }
        }
    } else if parts.len() == 1 {
        assert(!parts[0].contains(c));
    }
}

/// Reading back a safe row's line, terminator removed, gives the row.
pub proof fn lemma_fields_of_of_row(fields: Seq<Option<Seq<char>>>)
    requires
        row_safe(fields),
    ensures
        fields_of(join(field_texts(fields), DELIMITER)) == fields,
        !join(field_texts(fields), DELIMITER).contains(LINE_END),
{
    let texts = field_texts(fields);
    assert forall|i: int| 0 <= i < texts.len() implies !(#[trigger] texts[i]).contains(DELIMITER)
        && !texts[i].contains(LINE_END) by {
        assert(field_safe(fields[i]));
        if fields[i] is None {
            let t = null_token();
            if t.contains(DELIMITER) {
                let k = choose|k: int| 0 <= k < t.len() && t[k] == DELIMITER;
            }
            if t.contains(LINE_END) {
                let k = choose|k: int| 0 <= k < t.len() && t[k] == LINE_END;
            }
        }
    }
    lemma_split_join(texts, DELIMITER);
    lemma_join_no_char(texts, DELIMITER, LINE_END);
    let parsed = fields_of(join(texts, DELIMITER));
    assert forall|i: int| 0 <= i < fields.len() implies parsed[i] == fields[i] by {
        assert(field_safe(fields[i]));
    }
    assert(parsed =~= fields);
}

/// A safe row survives the bulk format: its line, read back, is the row.
pub proof fn lemma_row_round_trip(fields: Seq<Option<Seq<char>>>)
    requires
        row_safe(fields),
    ensures
        fields_of_line(row_text(fields)) == fields,
{
    lemma_fields_of_of_row(fields);
    let j = join(field_texts(fields), DELIMITER);
    assert(row_text(fields).drop_last() =~= j);
}

/// The lines of rows that each are at least one field long, each
/// without its terminator.
pub open spec fn row_lines(rows: Seq<Seq<Option<Seq<char>>>>) -> Seq<Seq<char>> {
    rows.map_values(|r: Seq<Option<Seq<char>>>| join(field_texts(r), DELIMITER))
}

proof fn lemma_rows_text_as_join(rows: Seq<Seq<Option<Seq<char>>>>)
    requires
        rows.len() > 0,
    ensures
        rows_text(rows) == join(row_lines(rows), LINE_END).push(LINE_END),
    decreases rows.len(),
{
    if rows.len() == 1 {
        assert(rows_text(rows.drop_last()) =~= seq![]);
        assert(rows_text(rows) =~= row_text(rows[0]));
    } else {
        let init = rows.drop_last();
        lemma_rows_text_as_join(init);
        assert(row_lines(rows).drop_last() =~= row_lines(init));
        assert(row_lines(rows).last() == join(field_texts(rows.last()), DELIMITER));
        assert(rows_text(rows) =~= join(row_lines(rows), LINE_END).push(LINE_END));
    }
}

/// A collection of safe rows survives the bulk format: its text, cut into
/// lines and fields, with the sentinel read as absent, gives the rows back.
pub proof fn lemma_rows_round_trip(rows: Seq<Seq<Option<Seq<char>>>>)
    requires
        forall|i: int| 0 <= i < rows.len() ==> row_safe(#[trigger] rows[i]),
    ensures
        rows_of_text(rows_text(rows)) == rows,
{
    if rows.len() == 0 {
        assert(split(seq![], LINE_END).drop_last() =~= seq![]);
        assert(rows_of_text(rows_text(rows)) =~= rows);
    } else {
        let lines = row_lines(rows);
        assert forall|i: int| 0 <= i < lines.len() implies !(#[trigger] lines[i]).contains(
            LINE_END,
        ) && fields_of(lines[i]) == rows[i] by {
            lemma_fields_of_of_row(rows[i]);
        }
        lemma_rows_text_as_join(rows);
        lemma_split_join(lines, LINE_END);
        let j = join(lines, LINE_END);
        assert(j.push(LINE_END).drop_last() =~= j);
        assert(split(j.push(LINE_END), LINE_END) == split(j, LINE_END).push(seq![]));
        assert(split(j.push(LINE_END), LINE_END).drop_last() =~= lines);
        assert(rows_of_text(rows_text(rows)) =~= rows);
    }
}

} // verus!

verus! {

fn null_str() -> (r: &'static str)
    ensures
        r@ == null_token(),
{
    proof {
        reveal_strlit("nul_val");
    }
    "nul_val"
}

/// Writes one row as a line of the bulk format, terminator included.
pub fn encode_row(fields: &Vec<Option<String>>) -> (r: String)
    ensures
        r@ == row_text(fields.deep_view()),
{
    let ghost texts = field_texts(fields.deep_view());
    let mut out = String::new();
    let mut i: usize = 0;
    while i < fields.len()
        invariant
            0 <= i <= fields.len(),
            texts == field_texts(fields.deep_view()),
            texts.len() == fields.len(),
            out@ == join(texts.subrange(0, i as int), DELIMITER),
        decreases fields.len() - i,
    {
        proof {
            reveal_strlit(",");
        }
        if i > 0 {
            out.append(",");
        }
        match &fields[i] {
            Some(t) => out.append(t.as_str()),
            None => out.append(null_str()),
        }
        proof {
            let p = texts.subrange(0, i + 1);
            assert(p.drop_last() =~= texts.subrange(0, i as int));
            assert(fields.deep_view()[i as int] == fields@[i as int].deep_view());
            assert(p.last() == texts[i as int]);
            if i == 0 {
                assert(join(texts.subrange(0, 0), DELIMITER) =~= seq![]);
                assert(out@ =~= p[0]);
            }
        }
        i = i + 1;
    }
    assert(texts.subrange(0, fields.len() as int) =~= texts);
    proof {
        reveal_strlit("\n");
    }
    out.append("\n");
    out
}

/// Cuts `s` at every `sep`.
pub fn split_text(s: &str, sep: char) -> (r: Vec<String>)
    ensures
        r.deep_view() == split(s@, sep),
{
    let n = s.unicode_len();
    let mut pieces: Vec<String> = Vec::new();
    let mut start: usize = 0;
    let mut i: usize = 0;
    assert(s@.subrange(0, 0) =~= seq![]);
    assert(s@.subrange(0, 0) =~= seq![]);
    while i < n
        invariant
            n == s@.len(),
            0 <= start <= i <= n,
            split(s@.subrange(0, i as int), sep) == pieces.deep_view().push(
                s@.subrange(start as int, i as int),
            ),
        decreases n - i,
    {
        let c = s.get_char(i);
        let ghost prefix = s@.subrange(0, i + 1);
        assert(prefix.drop_last() =~= s@.subrange(0, i as int));
        assert(prefix.last() == c);
        if c == sep {
            let piece = String::from_str(s.substring_char(start, i));
            pieces.push(piece);
            start = i + 1;
            assert(s@.subrange(start as int, i + 1) =~= seq![]);
        } else {
            assert(s@.subrange(start as int, i as int).push(c) =~= s@.subrange(
                start as int,
                i + 1,
            ));
        }
        i = i + 1;
    }
    let last = String::from_str(s.substring_char(start, n));
    pieces.push(last);
    assert(s@.subrange(0, n as int) =~= s@);
    assert(pieces.deep_view() =~= split(s@, sep));
    pieces
}

} // verus!

verus! {

fn read_fields(line: &str) -> (r: Vec<Option<String>>)
    ensures
        r.deep_view() == fields_of(line@),
{
    let pieces = split_text(line, DELIMITER);
    let null = String::from_str(null_str());
    let mut out: Vec<Option<String>> = Vec::new();
    let mut i: usize = 0;
    while i < pieces.len()
        invariant
            0 <= i <= pieces.len(),
            pieces.deep_view() == split(line@, DELIMITER),
            null@ == null_token(),
            out.deep_view() =~= pieces.deep_view().subrange(0, i as int).map_values(
                |p: Seq<char>| read_field(p),
            ),
        decreases pieces.len() - i,
    {
        let piece = pieces[i].clone();
        let ghost before = out.deep_view();
        let ghost pv = pieces.deep_view();
        assert(pv[i as int] == pieces@[i as int]@);
        if piece == null {
            out.push(None);
        } else {
            out.push(Some(piece));
        }
        assert(out.deep_view() =~= before.push(read_field(pv[i as int])));
        assert(pv.subrange(0, i + 1).map_values(|p: Seq<char>| read_field(p))
            =~= pv.subrange(0, i as int).map_values(|p: Seq<char>| read_field(p)).push(
            read_field(pv[i as int]),
        ));
        i = i + 1;
    }
    assert(pieces.deep_view().subrange(0, i as int) =~= pieces.deep_view());
    out
}

/// Reads one line of the bulk format back into its fields; a trailing
/// terminator is dropped first, and the sentinel reads as absent.
pub fn parse_row(line: &str) -> (r: Vec<Option<String>>)
    ensures
        r.deep_view() == fields_of_line(line@),
{
    let n = line.unicode_len();
    if n > 0 && line.get_char(n - 1) == LINE_END {
        assert(line@.subrange(0, n - 1) =~= line@.drop_last());
        read_fields(line.substring_char(0, n - 1))
    } else {
        read_fields(line)
    }
}

/// Reads a text of terminated lines back into rows of fields.
pub fn parse_rows(text: &str) -> (r: Vec<Vec<Option<String>>>)
    ensures
        r.deep_view() == rows_of_text(text@),
{
    let lines = split_text(text, LINE_END);
    proof {
        lemma_split_nonempty(text@, LINE_END);
    }
    let mut out: Vec<Vec<Option<String>>> = Vec::new();
    let mut i: usize = 0;
    while i + 1 < lines.len()
        invariant
            1 <= lines.len(),
            0 <= i <= lines.len() - 1,
            lines.deep_view() == split(text@, LINE_END),
            out.deep_view() =~= lines.deep_view().subrange(0, i as int).map_values(
                |l: Seq<char>| fields_of(l),
            ),
        decreases lines.len() - i,
    {
        assert(lines.deep_view()[i as int] == lines@[i as int]@);
        let row = read_fields(lines[i].as_str());
        let ghost before = out.deep_view();
        let ghost lv = lines.deep_view();
        out.push(row);
        assert(out.deep_view() =~= before.push(fields_of(lv[i as int])));
        assert(lv.subrange(0, i + 1).map_values(|l: Seq<char>| fields_of(l))
            =~= lv.subrange(0, i as int).map_values(|l: Seq<char>| fields_of(l)).push(
            fields_of(lv[i as int]),
        ));
        i = i + 1;
    }
    assert(lines.deep_view().subrange(0, i as int) =~= lines.deep_view().drop_last());
    out
}

} // verus!

verus! {

/// `s` with every delimiter and line end turned into a space.
pub open spec fn delimiter_safe_text(s: Seq<char>) -> Seq<char> {
    s.map_values(|c: char| if c == DELIMITER || c == LINE_END { ' ' } else { c })
}

/// Makes free text safe for the bulk format: every delimiter and line end
/// becomes a space, everything else stays.
pub fn make_delimiter_safe(s: &str) -> (r: String)
    ensures
        r@ == delimiter_safe_text(s@),
        r@.len() == s@.len(),
        !r@.contains(DELIMITER),
        !r@.contains(LINE_END),
{
    let n = s.unicode_len();
    let mut out = String::new();
    let mut i: usize = 0;
    while i < n
        invariant
            n == s@.len(),
            0 <= i <= n,
            out@ == delimiter_safe_text(s@.subrange(0, i as int)),
        decreases n - i,
    {
        let c = s.get_char(i);
        if c == DELIMITER || c == LINE_END {
            proof {
                reveal_strlit(" ");
            }
            out.append(" ");
        } else {
            out.append(s.substring_char(i, i + 1));
        }
        assert(delimiter_safe_text(s@.subrange(0, i + 1)) =~= delimiter_safe_text(
            s@.subrange(0, i as int),
        ).push(if c == DELIMITER || c == LINE_END {
            ' '
        } else {
            c
        }));
        i = i + 1;
    }
    assert(s@.subrange(0, n as int) =~= s@);
    proof {
        if out@.contains(DELIMITER) {
            let k = choose|k: int| 0 <= k < out@.len() && out@[k] == DELIMITER;
        }
        if out@.contains(LINE_END) {
            let k = choose|k: int| 0 <= k < out@.len() && out@[k] == LINE_END;
        }
    }
    out
}

/// Joins `parts` with the delimiter between neighbours.
pub fn join_with_delimiter(parts: &Vec<String>) -> (r: String)
    ensures
        r@ == join(parts.deep_view(), DELIMITER),
{
    let ghost pv = parts.deep_view();
    let mut out = String::new();
    let mut i: usize = 0;
    while i < parts.len()
        invariant
            0 <= i <= parts.len(),
            pv == parts.deep_view(),
            out@ == join(pv.subrange(0, i as int), DELIMITER),
        decreases parts.len() - i,
    {
        proof {
            reveal_strlit(",");
        }
        if i > 0 {
            out.append(",");
        }
        out.append(parts[i].as_str());
        proof {
            let p = pv.subrange(0, i + 1);
            assert(p.drop_last() =~= pv.subrange(0, i as int));
            assert(pv[i as int] == parts@[i as int]@);
            if i == 0 {
                assert(out@ =~= p[0]);
            }
        }
        i = i + 1;
    }
    assert(pv.subrange(0, parts.len() as int) =~= pv);
    out
}

} // verus!
