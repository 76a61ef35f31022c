//! Reading the lists that Home Assistant's template API prints.
use vstd::prelude::*;
use vstd::string::*;

use crate::text::chars_of;
use crate::text::range_eq;
use crate::text::skip_end;
use crate::text::skip_start;
use crate::text::trim_end;
use crate::text::trim_start;
use crate::text::trim_ws;
use crate::text::in_class;
use crate::text::join_list;
use crate::text::CharClass;

verus! {

/// Splitting with the piece `cur` begun: each `sep` ends a piece.
pub open spec fn split_from(s: Seq<char>, sep: char, cur: Seq<char>) -> Seq<Seq<char>>
    decreases s.len(),
{
    if s.len() == 0 {
        seq![cur]
    } else if s[0] == sep {
        seq![cur] + split_from(s.drop_first(), sep, seq![])
    } else {
        split_from(s.drop_first(), sep, cur.push(s[0]))
    }
}

/// The pieces of `s` between its `sep` characters, as `str::split`
/// yields them: one more piece than there are separators.
pub open spec fn split_on(s: Seq<char>, sep: char) -> Seq<Seq<char>> {
    split_from(s, sep, seq![])
}

/// An item of the list with white space, then quotes, trimmed off.
pub open spec fn clean_item(p: Seq<char>) -> Seq<char> {
    trim_end(trim_start(trim_ws(p), CharClass::Quote), CharClass::Quote)
}

/// The text between the brackets: leading `[` and trailing `]` removed.
pub open spec fn list_body(t: Seq<char>) -> Seq<char> {
    trim_end(trim_start(t, CharClass::Only('[')), CharClass::Only(']'))
}

/// Whether an item is kept.
pub open spec fn non_empty(p: Seq<char>) -> bool {
    p.len() > 0
}

/// The items of a printed list such as `['kitchen', 'living_room']`:
/// none for `[]`; otherwise the text between the brackets split at commas,
/// each piece trimmed of white space and quotes, empty pieces dropped.
pub open spec fn jinja_list(raw: Seq<char>) -> Seq<Seq<char>> {
    let t = trim_ws(raw);
    if t == "[]"@ {
        seq![]
    } else {
        split_on(list_body(t), ',').map_values(|p: Seq<char>| clean_item(p)).filter(
            |p: Seq<char>| non_empty(p),
        )
    }
}

/// The views of a list of strings.
pub open spec fn views_of(v: Seq<String>) -> Seq<Seq<char>> {
    v.map_values(|s: String| s@)
}

/// Appends the cleaned piece `v[s .. e]` of `raw` to `out` where it is not
/// empty.
fn push_item(raw: &str, v: &Vec<char>, s: usize, e: usize, out: &mut Vec<String>)
    requires
        v@ == raw@,
        s <= e <= v.len(),
    ensures
        views_of(final(out)@) == (if non_empty(clean_item(v@.subrange(s as int, e as int))) {
            views_of(old(out)@).push(clean_item(v@.subrange(s as int, e as int)))
        } else {
            views_of(old(out)@)
        }),
{
    let a = skip_start(v, s, e, CharClass::Whitespace);
    let b = skip_end(v, a, e, CharClass::Whitespace);
    let c = skip_start(v, a, b, CharClass::Quote);
    let d = skip_end(v, c, b, CharClass::Quote);
    assert(v@.subrange(c as int, d as int) == clean_item(v@.subrange(s as int, e as int)));
    if c < d {
        let item = String::from_str(raw.substring_char(c, d));
        out.push(item);
        assert(views_of(out@) =~= views_of(old(out)@).push(item@));
    }
}

/// Parses the string form of a list that Home Assistant's template API
/// returns, e.g. `['kitchen', 'living_room']`.
pub fn parse_jinja_list(raw: &str) -> (r: Vec<String>)
    ensures
        views_of(r@) == jinja_list(raw@),
{
    let v = chars_of(raw);
    let n = v.len();
    let a = skip_start(&v, 0, n, CharClass::Whitespace);
    let b = skip_end(&v, a, n, CharClass::Whitespace);
    assert(v@.subrange(0, n as int) =~= raw@);
    let ghost t = v@.subrange(a as int, b as int);
    assert(t == trim_ws(raw@));
    let empty_list = chars_of("[]");
    let mut out: Vec<String> = Vec::new();
    if range_eq(&v, a, b, &empty_list) {
        assert(views_of(out@) =~= Seq::<Seq<char>>::empty());
        return out;
    }
    let lo = skip_start(&v, a, b, CharClass::Only('['));
    let hi = skip_end(&v, lo, b, CharClass::Only(']'));
    let ghost body = v@.subrange(lo as int, hi as int);
    assert(body == list_body(t));
    let ghost keep = |p: Seq<char>| non_empty(p);
    let ghost clean = |p: Seq<char>| clean_item(p);
    let ghost mut done: Seq<Seq<char>> = seq![];
    let mut start = lo;
    let mut j = lo;
    assert(v@.subrange(lo as int, lo as int) =~= Seq::<char>::empty());
    assert(views_of(out@) =~= Seq::<Seq<char>>::empty());
    assert(done.map_values(clean).filter(keep) =~= Seq::<Seq<char>>::empty()) by {
        reveal(Seq::filter);
    };
    while j < hi
        invariant
            v@ == raw@,
            lo <= start <= j <= hi <= v.len(),
            body == v@.subrange(lo as int, hi as int),
            done + split_from(v@.subrange(j as int, hi as int), ',', v@.subrange(
                start as int,
                j as int,
            )) == split_on(body, ','),
            views_of(out@) == done.map_values(clean).filter(keep),
            keep == (|p: Seq<char>| non_empty(p)),
            clean == (|p: Seq<char>| clean_item(p)),
        decreases hi - j,
    {
        let ghost rest = v@.subrange(j as int, hi as int);
        let ghost cur = v@.subrange(start as int, j as int);
        assert(rest.drop_first() =~= v@.subrange(j + 1, hi as int));
        if v[j] == ',' {
            push_item(raw, &v, start, j, &mut out);
            proof {
                assert(v@.subrange(j + 1, j + 1) =~= Seq::<char>::empty());
                assert(done.push(cur).map_values(clean) =~= done.map_values(clean).push(
                    clean_item(cur),
                ));
                done.map_values(clean).lemma_filter_push(clean_item(cur), keep);
                assert(done + (seq![cur] + split_from(rest.drop_first(), ',', seq![])) =~= done.push(
                    cur,
                ) + split_from(rest.drop_first(), ',', seq![]));
                done = done.push(cur);
            }
            start = j + 1;
        } else {
            assert(cur.push(v@[j as int]) =~= v@.subrange(start as int, j + 1));
        }
        j = j + 1;
    }
    let ghost last = v@.subrange(start as int, hi as int);
    assert(v@.subrange(hi as int, hi as int) =~= Seq::<char>::empty());
    push_item(raw, &v, start, hi, &mut out);
    proof {
        assert(done + seq![last] =~= done.push(last));
        assert(done.push(last).map_values(clean) =~= done.map_values(clean).push(clean_item(last)));
        done.map_values(clean).lemma_filter_push(clean_item(last), keep);
    }
    out
}

/// An item in single quotes.
pub open spec fn quoted(x: Seq<char>) -> Seq<char> {
    "'"@ + x + "'"@
}

/// The printed form of a list of strings, as Python prints it:
/// `['a', 'b']`.
pub open spec fn printed_list(xs: Seq<Seq<char>>) -> Seq<char> {
    "["@ + join_list(xs.map_values(|x: Seq<char>| quoted(x)), ", "@) + "]"@
}

/// Whether an item prints and reads back unchanged: it is not empty,
/// holds no comma, and neither begins nor ends with a quote.
pub open spec fn plain_item(x: Seq<char>) -> bool {
    &&& x.len() > 0
    &&& !x.contains(',')
    &&& !in_class(CharClass::Quote, x[0])
    &&& !in_class(CharClass::Quote, x.last())
}

proof fn lemma_trim_start_stop(s: Seq<char>, k: CharClass)
    requires
        s.len() > 0,
        !in_class(k, s[0]),
    ensures
        trim_start(s, k) == s,
{
}

proof fn lemma_trim_end_stop(s: Seq<char>, k: CharClass)
    requires
        s.len() > 0,
        !in_class(k, s.last()),
    ensures
        trim_end(s, k) == s,
{
}

proof fn lemma_trim_start_one(s: Seq<char>, k: CharClass)
    requires
        s.len() > 1,
        in_class(k, s[0]),
        !in_class(k, s[1]),
    ensures
        trim_start(s, k) == s.drop_first(),
{
    lemma_trim_start_stop(s.drop_first(), k);
}

proof fn lemma_trim_end_one(s: Seq<char>, k: CharClass)
    requires
        s.len() > 1,
        in_class(k, s.last()),
        !in_class(k, s[s.len() - 2]),
    ensures
        trim_end(s, k) == s.drop_last(),
{
    lemma_trim_end_stop(s.drop_last(), k);
}

proof fn lemma_split_no_sep(s: Seq<char>, sep: char, cur: Seq<char>)
    requires
        !s.contains(sep),
    ensures
        split_from(s, sep, cur) == seq![cur + s],
    decreases s.len(),
{
    if s.len() == 0 {
        assert(cur + s =~= cur);
    } else {
        assert(s[0] != sep);
        assert(!s.drop_first().contains(sep)) by {
            if s.drop_first().contains(sep) {
                let i = choose|i: int| 0 <= i < s.drop_first().len() && s.drop_first()[i] == sep;
                assert(s[i + 1] == sep);
            }
        };
        lemma_split_no_sep(s.drop_first(), sep, cur.push(s[0]));
        assert(cur.push(s[0]) + s.drop_first() =~= cur + s);
    }
}

proof fn lemma_split_last(a: Seq<char>, b: Seq<char>, sep: char, cur: Seq<char>)
    requires
        !b.contains(sep),
    ensures
        split_from(a + seq![sep] + b, sep, cur) == split_from(a, sep, cur) + seq![b],
    decreases a.len(),
{
    let s = a + seq![sep] + b;
    if a.len() == 0 {
        assert(s[0] == sep);
        assert(s.drop_first() =~= b);
        lemma_split_no_sep(b, sep, seq![]);
        assert(seq![] + b =~= b);
    } else {
        assert(s[0] == a[0]);
        assert(s.drop_first() =~= a.drop_first() + seq![sep] + b);
        if a[0] == sep {
            lemma_split_last(a.drop_first(), b, sep, seq![]);
        } else {
            lemma_split_last(a.drop_first(), b, sep, cur.push(a[0]));
        }
    }
}

proof fn lemma_split_joined(ps: Seq<Seq<char>>, sep: char)
    requires
        ps.len() > 0,
        forall|i: int| 0 <= i < ps.len() ==> !(#[trigger] ps[i]).contains(sep),
    ensures
        split_on(join_list(ps, seq![sep]), sep) == ps,
    decreases ps.len(),
{
    if ps.len() == 1 {
        lemma_split_no_sep(ps[0], sep, seq![]);
        assert(Seq::<char>::empty() + ps[0] =~= ps[0]);
        assert(seq![ps[0]] =~= ps);
    } else {
        let d = ps.drop_last();
        assert forall|i: int| 0 <= i < d.len() implies !(#[trigger] d[i]).contains(sep) by {
            assert(d[i] == ps[i]);
        }
        lemma_split_joined(d, sep);
        assert(!ps.last().contains(sep));
        lemma_split_last(join_list(d, seq![sep]), ps.last(), sep, seq![]);
        assert(d + seq![ps.last()] =~= ps);
    }
}

/// The pieces between commas of a list printed with `, `: the first item,
/// then each later one after a space.
pub open spec fn comma_pieces(qs: Seq<Seq<char>>) -> Seq<Seq<char>> {
    Seq::new(qs.len(), |i: int| if i == 0 { qs[0] } else { " "@ + qs[i] })
}

proof fn lemma_comma_space(qs: Seq<Seq<char>>)
    requires
        qs.len() > 0,
    ensures
        join_list(qs, ", "@) == join_list(comma_pieces(qs), seq![',']),
    decreases qs.len(),
{
    reveal_strlit(", ");
    reveal_strlit(" ");
    if qs.len() > 1 {
        lemma_comma_space(qs.drop_last());
        assert(comma_pieces(qs).drop_last() =~= comma_pieces(qs.drop_last()));
        assert(join_list(qs.drop_last(), ", "@) + ", "@ + qs.last() =~= join_list(
            comma_pieces(qs.drop_last()),
            seq![','],
        ) + seq![','] + (" "@ + qs.last()));
    }
}

proof fn lemma_clean_piece(x: Seq<char>, lead: bool)
    requires
        plain_item(x),
    ensures
        clean_item(if lead { " "@ + quoted(x) } else { quoted(x) }) == x,
        !(if lead { " "@ + quoted(x) } else { quoted(x) }).contains(','),
{
    reveal_strlit("'");
    reveal_strlit(" ");
    let q = quoted(x);
    let n = x.len() as int;
    assert(q.len() == n + 2);
    assert(q[0] == '\'');
    assert(q[q.len() - 1] == '\'');
    assert(q[1] == x[0]);
    assert(q[n] == x[n - 1]);
    let p = if lead { " "@ + q } else { q };
    if lead {
        lemma_trim_start_one(p, CharClass::Whitespace);
        assert(p.drop_first() =~= q);
    } else {
        lemma_trim_start_stop(p, CharClass::Whitespace);
    }
    lemma_trim_end_stop(q, CharClass::Whitespace);
    assert(trim_ws(p) == q);
    lemma_trim_start_one(q, CharClass::Quote);
    let r = q.drop_first();
    assert(r =~= x + "'"@);
    assert(r[r.len() - 2] == x.last());
    lemma_trim_end_one(r, CharClass::Quote);
    assert(r.drop_last() =~= x);
    if p.contains(',') {
        let i = choose|i: int| 0 <= i < p.len() && p[i] == ',';
        if lead {
            assert(p[i] == q[i - 1]);
        }
        let j = if lead { i - 1 } else { i };
        assert(q[j] == ',');
        assert(0 < j < q.len() - 1);
        assert(x[j - 1] == ',');
    }
}

/// A list of plain items, printed as Python prints it, reads back as the
/// same items in the same order; the empty list reads back as no items.
pub proof fn law_printed_list_reads_back(xs: Seq<Seq<char>>)
    requires
        forall|i: int| 0 <= i < xs.len() ==> plain_item(#[trigger] xs[i]),
    ensures
        jinja_list(printed_list(xs)) == xs,
{
    reveal_strlit("[");
    reveal_strlit("]");
    reveal_strlit("[]");
    reveal_strlit(", ");
    reveal_strlit("'");
    let qs = xs.map_values(|x: Seq<char>| quoted(x));
    let body = join_list(qs, ", "@);
    let raw = printed_list(xs);
    assert(raw =~= seq!['['] + body + seq![']']);
    assert(raw[0] == '[');
    assert(raw[raw.len() - 1] == ']');
    lemma_trim_start_stop(raw, CharClass::Whitespace);
    lemma_trim_end_stop(raw, CharClass::Whitespace);
    assert(trim_ws(raw) == raw);
    if xs.len() == 0 {
        assert(qs.len() == 0);
        assert(raw =~= "[]"@);
    } else {
        let ps = comma_pieces(qs);
        lemma_comma_space(qs);
        assert forall|i: int| 0 <= i < ps.len() implies !(#[trigger] ps[i]).contains(',')
            && clean_item(ps[i]) == xs[i] by {
            lemma_clean_piece(xs[i], i != 0);
        }
        lemma_split_joined(ps, ',');
        // the body begins and ends with a quote
        assert(body.len() >= 2) by {
            lemma_join_bounds(qs, ", "@);
        };
        lemma_join_bounds(qs, ", "@);
        assert(raw.len() > 2);
        assert(raw != "[]"@);
        assert(raw[1] == body[0]);
        assert(raw[raw.len() - 2] == body[body.len() - 1]);
        lemma_trim_start_one(raw, CharClass::Only('['));
        let r1 = raw.drop_first();
        assert(r1 =~= body + seq![']']);
        assert(r1[r1.len() - 2] == body.last());
        lemma_trim_end_one(r1, CharClass::Only(']'));
        assert(r1.drop_last() =~= body);
        assert(list_body(raw) == body);
        let cleaned = ps.map_values(|p: Seq<char>| clean_item(p));
        assert(cleaned =~= xs);
        lemma_filter_all_kept(xs);
    }
}

proof fn lemma_join_bounds(qs: Seq<Seq<char>>, sep: Seq<char>)
    requires
        qs.len() > 0,
        forall|i: int| 0 <= i < qs.len() ==> (#[trigger] qs[i]).len() >= 2 && qs[i][0] == '\''
            && qs[i].last() == '\'',
    ensures
        join_list(qs, sep).len() >= 2,
        join_list(qs, sep)[0] == '\'',
        join_list(qs, sep).last() == '\'',
    decreases qs.len(),
{
    if qs.len() > 1 {
        let d = qs.drop_last();
        assert forall|i: int| 0 <= i < d.len() implies (#[trigger] d[i]).len() >= 2 && d[i][0]
            == '\'' && d[i].last() == '\'' by {
            assert(d[i] == qs[i]);
        }
        lemma_join_bounds(d, sep);
        let j = join_list(d, sep) + sep + qs.last();
        assert(j[0] == join_list(d, sep)[0]);
        assert(j.last() == qs.last().last());
    }
}

proof fn lemma_filter_all_kept(xs: Seq<Seq<char>>)
    requires
        forall|i: int| 0 <= i < xs.len() ==> (#[trigger] xs[i]).len() > 0,
    ensures
        xs.filter(|p: Seq<char>| non_empty(p)) == xs,
    decreases xs.len(),
{
    if xs.len() == 0 {
        assert(xs.filter(|p: Seq<char>| non_empty(p)) =~= xs) by {
            reveal(Seq::filter);
        };
    } else {
        let d = xs.drop_last();
        assert forall|i: int| 0 <= i < d.len() implies (#[trigger] d[i]).len() > 0 by {
            assert(d[i] == xs[i]);
        }
        lemma_filter_all_kept(d);
        d.lemma_filter_push(xs.last(), |p: Seq<char>| non_empty(p));
        assert(d.push(xs.last()) =~= xs);
    }
}

} // verus!
