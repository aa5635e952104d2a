//! The statements of a schema script: the text is split at every `;`, and
//! the parts that hold anything but whitespace are run in order.
use vstd::prelude::*;
use vstd::string::StrSliceExecFns;

verus! {

/// Whether `c` is whitespace in the sense of `char::is_whitespace`: it has
/// the Unicode `White_Space` property.
pub open spec fn is_whitespace(c: char) -> bool {
    let u = c as u32;
    (9 <= u <= 13) || u == 32 || u == 0x85 || u == 0xa0 || u == 0x1680 || (0x2000 <= u <= 0x200a)
        || u == 0x2028 || u == 0x2029 || u == 0x202f || u == 0x205f || u == 0x3000
}

/// Whether a text holds nothing but whitespace, so that trimming it leaves
/// it empty.
pub open spec fn is_blank(s: Seq<char>) -> bool {
    forall|i: int| 0 <= i < s.len() ==> is_whitespace(#[trigger] s[i])
}

/// The parts of `s` between its `;`s, as `str::split(';')` gives them:
/// one more part than there are `;`s.
pub open spec fn split_parts(s: Seq<char>) -> Seq<Seq<char>>
    decreases s.len(),
{
    if s.len() == 0 {
        seq![Seq::<char>::empty()]
    } else {
        let p = split_parts(s.drop_last());
        if s.last() == ';' {
            p.push(Seq::<char>::empty())
        } else {
            p.update(p.len() - 1, p.last().push(s.last()))
        }
    }
}

/// Whether a part holds something besides whitespace.
pub open spec fn not_blank() -> spec_fn(Seq<char>) -> bool {
    |q: Seq<char>| !is_blank(q)
}

/// The parts that hold something besides whitespace, in order.
pub open spec fn runnable(parts: Seq<Seq<char>>) -> Seq<Seq<char>> {
    parts.filter(not_blank())
}

/// The statements of the script `s` that are run.
pub open spec fn schema_statements(s: Seq<char>) -> Seq<Seq<char>> {
    runnable(split_parts(s))
}

/// The texts held by a sequence of strings.
pub open spec fn texts(v: Seq<String>) -> Seq<Seq<char>> {
    v.map_values(|x: String| x@)
}

proof fn lemma_split_parts_nonempty(s: Seq<char>)
    ensures
        split_parts(s).len() >= 1,
    decreases s.len(),
{
    if s.len() > 0 {
        lemma_split_parts_nonempty(s.drop_last());
    }
}

proof fn lemma_runnable_push(parts: Seq<Seq<char>>, q: Seq<char>)
    ensures
        runnable(parts.push(q)) == if is_blank(q) {
            runnable(parts)
        } else {
            runnable(parts).push(q)
        },
{
    reveal_with_fuel(Seq::filter, 1);
    assert(parts.push(q).drop_last() =~= parts);
}

proof fn lemma_split_parts_have_no_separator(s: Seq<char>)
    ensures
        forall|i: int, j: int|
            0 <= i < split_parts(s).len() && 0 <= j < split_parts(s)[i].len() ==> #[trigger] split_parts(
                s,
            )[i][j] != ';',
    decreases s.len(),
{
    if s.len() > 0 {
        lemma_split_parts_have_no_separator(s.drop_last());
        lemma_split_parts_nonempty(s.drop_last());
    }
}

/// Parts joined back together with a `;` between each two.
pub open spec fn join_parts(parts: Seq<Seq<char>>) -> Seq<char>
    decreases parts.len(),
{
    if parts.len() == 0 {
        Seq::<char>::empty()
    } else if parts.len() == 1 {
        parts[0]
    } else {
        join_parts(parts.drop_last()) + seq![';'] + parts.last()
    }
}

/// Splitting a script at its `;`s loses nothing: joining the parts with
/// `;` gives the script back.
pub proof fn lemma_split_parts_join(s: Seq<char>)
    ensures
        join_parts(split_parts(s)) == s,
    decreases s.len(),
{
    if s.len() == 0 {
        assert(join_parts(split_parts(s)) =~= s);
    } else {
        let t = s.drop_last();
        let c = s.last();
        let p = split_parts(t);
        lemma_split_parts_join(t);
        lemma_split_parts_nonempty(t);
        assert(s =~= t.push(c));
        if c == ';' {
            let q = p.push(Seq::<char>::empty());
            assert(q.drop_last() =~= p);
            assert(join_parts(q) =~= s);
        } else {
            let q = p.update(p.len() - 1, p.last().push(c));
            if p.len() == 1 {
                assert(join_parts(q) =~= s);
            } else {
                assert(q.drop_last() =~= p.drop_last());
                assert(join_parts(q) =~= join_parts(p.drop_last()) + seq![';'] + p.last().push(c));
                assert(join_parts(q) =~= s);
            }
        }
    }
}

/// Every statement of a schema script that is run is free of `;` and holds
/// something besides whitespace, and each one is a part of the script
/// between its `;`s.
pub proof fn lemma_schema_statements_clean(s: Seq<char>)
    ensures
        forall|i: int, j: int|
            0 <= i < schema_statements(s).len() && 0 <= j < schema_statements(s)[i].len()
                ==> #[trigger] schema_statements(s)[i][j] != ';',
        forall|i: int|
            0 <= i < schema_statements(s).len() ==> !is_blank(#[trigger] schema_statements(s)[i]),
        forall|i: int|
            0 <= i < schema_statements(s).len() ==> split_parts(s).contains(
                #[trigger] schema_statements(s)[i],
            ),
{
    let parts = split_parts(s);
    let st = schema_statements(s);
    lemma_split_parts_have_no_separator(s);
    assert forall|i: int| 0 <= i < st.len() implies !is_blank(#[trigger] st[i]) && parts.contains(
        st[i],
    ) by {
        parts.lemma_filter_pred(not_blank(), i);
        assert(st.contains(st[i]));
        parts.lemma_filter_contains_rev(not_blank(), st[i]);
    }
    assert forall|i: int, j: int| 0 <= i < st.len() && 0 <= j < st[i].len() implies #[trigger] st[i][j]
        != ';' by {
        assert(st.contains(st[i]));
        parts.lemma_filter_contains_rev(not_blank(), st[i]);
        let k = choose|k: int| 0 <= k < parts.len() && parts[k] == st[i];
        assert(parts[k][j] != ';');
    }
}

/// Whether `c` is one of the characters with Unicode's `White_Space`
/// property, listed one by one: tab, line feed, vertical tab, form feed,
/// carriage return, space, next line, no-break space, ogham space mark, the
/// eleven spaces from en quad to hair space, line separator, paragraph
/// separator, narrow no-break space, medium mathematical space and
/// ideographic space.
pub open spec fn listed_whitespace(c: char) -> bool {
    ||| c == '\t'
    ||| c == '\n'
    ||| c == '\u{0B}'
    ||| c == '\u{0C}'
    ||| c == '\r'
    ||| c == ' '
    ||| c == '\u{85}'
    ||| c == '\u{A0}'
    ||| c == '\u{1680}'
    ||| c == '\u{2000}'
    ||| c == '\u{2001}'
    ||| c == '\u{2002}'
    ||| c == '\u{2003}'
    ||| c == '\u{2004}'
    ||| c == '\u{2005}'
    ||| c == '\u{2006}'
    ||| c == '\u{2007}'
    ||| c == '\u{2008}'
    ||| c == '\u{2009}'
    ||| c == '\u{200A}'
    ||| c == '\u{2028}'
    ||| c == '\u{2029}'
    ||| c == '\u{202F}'
    ||| c == '\u{205F}'
    ||| c == '\u{3000}'
}

/// The characters that count as whitespace, and so are trimmed from a
/// query, are exactly the listed `White_Space` characters.
pub proof fn lemma_whitespace_is_listed(c: char)
    ensures
        is_whitespace(c) <==> listed_whitespace(c),
{
    let u = c as u32;
    assert(('\t' as u32) == 9 && ('\n' as u32) == 10 && ('\u{0B}' as u32) == 11 && ('\u{0C}' as u32)
        == 12 && ('\r' as u32) == 13 && (' ' as u32) == 32);
    assert(('\u{85}' as u32) == 0x85 && ('\u{A0}' as u32) == 0xa0 && ('\u{1680}' as u32) == 0x1680
        && ('\u{2028}' as u32) == 0x2028 && ('\u{2029}' as u32) == 0x2029 && ('\u{202F}' as u32)
        == 0x202f && ('\u{205F}' as u32) == 0x205f && ('\u{3000}' as u32) == 0x3000);
    assert(('\u{2000}' as u32) == 0x2000 && ('\u{2001}' as u32) == 0x2001 && ('\u{2002}' as u32)
        == 0x2002 && ('\u{2003}' as u32) == 0x2003 && ('\u{2004}' as u32) == 0x2004 && ('\u{2005}' as u32)
        == 0x2005 && ('\u{2006}' as u32) == 0x2006 && ('\u{2007}' as u32) == 0x2007 && ('\u{2008}' as u32)
        == 0x2008 && ('\u{2009}' as u32) == 0x2009 && ('\u{200A}' as u32) == 0x200a);
}

/// Whether `c` is whitespace; see `is_whitespace`.
pub fn char_is_whitespace(c: char) -> (r: bool)
    ensures
        r == is_whitespace(c),
        r == listed_whitespace(c),
{
    proof {
        lemma_whitespace_is_listed(c);
    }
    let u = c as u32;
    (9 <= u && u <= 13) || u == 32 || u == 0x85 || u == 0xa0 || u == 0x1680 || (0x2000 <= u && u
        <= 0x200a) || u == 0x2028 || u == 0x2029 || u == 0x202f || u == 0x205f || u == 0x3000
}

/// Whether a query holds nothing but whitespace, in which case it is not
/// run.
pub fn is_blank_query(query: &str) -> (r: bool)
    ensures
        r == is_blank(query@),
{
    let n = query.unicode_len();
    let mut i: usize = 0;
    while i < n
        invariant
            n == query@.len(),
            i <= n,
            forall|j: int| 0 <= j < i ==> is_whitespace(#[trigger] query@[j]),
        decreases n - i,
    {
        if !char_is_whitespace(query.get_char(i)) {
            return false;
        }
        i = i + 1;
    }
    true
}

/// The statements of a schema script that are run, in order: the parts
/// between its `;`s that are not blank.
pub fn schema_queries(content: &str) -> (r: Vec<String>)
    ensures
        texts(r@) == schema_statements(content@),
{
    let ghost s = content@;
    let n = content.unicode_len();
    let mut out: Vec<String> = Vec::new();
    let mut start: usize = 0;
    let mut i: usize = 0;
    proof {
        assert(s.take(0) =~= Seq::<char>::empty());
        assert(texts(out@) =~= Seq::<Seq<char>>::empty());
        reveal_with_fuel(Seq::filter, 1);
        assert(split_parts(s.take(0)).drop_last() =~= Seq::<Seq<char>>::empty());
        assert(s.subrange(0, 0) =~= Seq::<char>::empty());
    }
    while i < n
        invariant
            s == content@,
            n == s.len(),
            start <= i <= n,
            split_parts(s.take(i as int)).len() >= 1,
            split_parts(s.take(i as int)).last() == s.subrange(start as int, i as int),
            texts(out@) == runnable(split_parts(s.take(i as int)).drop_last()),
        decreases n - i,
    {
        let c = content.get_char(i);
        let ghost before = split_parts(s.take(i as int));
        proof {
            assert(s.take(i + 1).drop_last() =~= s.take(i as int));
            assert(s.take(i + 1).last() == c);
            lemma_split_parts_nonempty(s.take(i + 1));
        }
        if c == ';' {
            let part = content.substring_char(start, i);
            let owned = part.to_owned();
            proof {
                assert(split_parts(s.take(i + 1)).drop_last() =~= before);
                assert(before =~= before.drop_last().push(before.last()));
                lemma_runnable_push(before.drop_last(), before.last());
            }
            if !is_blank_query(part) {
                let ghost prev = out@;
                out.push(owned);
                assert(texts(out@) =~= texts(prev).push(owned@));
            }
            start = i + 1;
            assert(s.subrange(start as int, (i + 1) as int) =~= Seq::<char>::empty());
        } else {
            proof {
                assert(split_parts(s.take(i + 1)).drop_last() =~= before.drop_last());
                assert(s.subrange(start as int, i + 1) =~= s.subrange(start as int, i as int).push(
                    c,
                ));
            }
        }
        i = i + 1;
    }
    let ghost parts = split_parts(s.take(n as int));
    assert(s.take(n as int) =~= s);
    let last = content.substring_char(start, n);
    let owned = last.to_owned();
    proof {
        assert(parts =~= parts.drop_last().push(parts.last()));
        lemma_runnable_push(parts.drop_last(), parts.last());
    }
    if !is_blank_query(last) {
        let ghost prev = out@;
        out.push(owned);
        assert(texts(out@) =~= texts(prev).push(owned@));
    }
    out
}

} // verus!
