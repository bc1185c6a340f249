use vstd::prelude::*;

use crate::hashing::push_char;
use crate::package::{
    opt_view, parse_type, type_of_tag, views_of, PackageData, PackageDataV, PackageType,
};

verus! {

// ---------------------------------------------------------------------------
// The persisted state document.
//
// The installed-state store writes an ordered list of records as a single
// human-diffable text document, one record per line:
//
//   [
//   {"name":"htop","type":"apt","version":null,"channel":null,"hash":".."},
//   {"name":"jq","type":"brew","version":"1.7","channel":null,"hash":".."}
//   ]
//
// Inside a quoted field, a double quote or a backslash is written with a
// backslash in front; every other character is written as itself. The
// functions below define the document, write it, and parse it back; the
// round trip is proved exact.
// ---------------------------------------------------------------------------
/// One character as written inside a quoted field.
pub open spec fn esc_char(c: char) -> Seq<char> {
    if c == '"' || c == '\\' {
        seq!['\\', c]
    } else {
        seq![c]
    }
}

/// A field's characters as written inside its quotes.
pub open spec fn esc(s: Seq<char>) -> Seq<char>
    decreases s.len(),
{
    if s.len() == 0 {
        Seq::<char>::empty()
    } else {
        esc_char(s[0]) + esc(s.drop_first())
    }
}

pub proof fn lemma_esc_push(s: Seq<char>, c: char)
    ensures
        esc(s.push(c)) == esc(s) + esc_char(c),
    decreases s.len(),
{
    if s.len() == 0 {
        assert(s.push(c)[0] == c);
        assert(s.push(c).drop_first() =~= Seq::<char>::empty());
        assert(esc(s.push(c)) == esc_char(c) + esc(Seq::<char>::empty()));
        assert(esc(s.push(c)) =~= esc(s) + esc_char(c));
    } else {
        lemma_esc_push(s.drop_first(), c);
        assert(s.push(c)[0] == s[0]);
        assert(s.push(c).drop_first() =~= s.drop_first().push(c));
        assert(esc(s.push(c)) == esc_char(s[0]) + esc(s.drop_first().push(c)));
        assert(esc(s.push(c)) =~= esc(s) + esc_char(c));
    }
}

/// A quoted field: the escaped characters between double quotes.
pub open spec fn quoted(s: Seq<char>) -> Seq<char> {
    seq!['"'] + esc(s) + seq!['"']
}

/// Appends one field to the document, quoted and escaped.
pub fn write_quoted(out: &mut String, s: &str)
    ensures
        final(out)@ == old(out)@ + quoted(s@),
{
    let n = s.unicode_len();
    push_char(out, '"');
    let mut i: usize = 0;
    while i < n
        invariant
            n == s@.len(),
            0 <= i <= n,
            out@ == old(out)@ + seq!['"'] + esc(s@.take(i as int)),
        decreases n - i,
    {
        let c = s.get_char(i);
        let ghost prefix = s@.take(i as int);
        if c == '"' || c == '\\' {
            push_char(out, '\\');
        }
        push_char(out, c);
        proof {
            lemma_esc_push(prefix, c);
            assert(s@.take(i + 1) =~= prefix.push(c));
            assert(out@ =~= old(out)@ + seq!['"'] + esc(s@.take(i + 1)));
        }
        i += 1;
    }
    push_char(out, '"');
    proof {
        assert(s@.take(n as int) =~= s@);
        assert(out@ =~= old(out)@ + quoted(s@));
    }
}

/// Scans a quoted field's body: characters up to an unescaped closing quote,
/// a backslash taking the next quote or backslash literally. `acc` is what
/// the scan has already read.
pub open spec fn sp_str_body(v: Seq<char>, acc: Seq<char>) -> Option<(Seq<char>, Seq<char>)>
    decreases v.len(),
{
    if v.len() == 0 {
        None
    } else if v[0] == '"' {
        Some((acc, v.skip(1)))
    } else if v[0] == '\\' {
        if v.len() >= 2 && (v[1] == '"' || v[1] == '\\') {
            sp_str_body(v.skip(2), acc.push(v[1]))
        } else {
            None
        }
    } else {
        sp_str_body(v.skip(1), acc.push(v[0]))
    }
}

/// Scans a quoted field: the opening quote, then the body.
pub open spec fn sp_quoted(v: Seq<char>) -> Option<(Seq<char>, Seq<char>)> {
    if v.len() >= 1 && v[0] == '"' {
        sp_str_body(v.skip(1), Seq::<char>::empty())
    } else {
        None
    }
}

/// Scanning what `esc` wrote, up to its closing quote, yields the unescaped
/// characters back and leaves exactly what followed.
pub proof fn lemma_sp_str_body(s: Seq<char>, rest: Seq<char>, acc: Seq<char>)
    ensures
        sp_str_body(esc(s) + seq!['"'] + rest, acc) == Some((acc + s, rest)),
    decreases s.len(),
{
    let v = esc(s) + seq!['"'] + rest;
    if s.len() == 0 {
        assert(esc(s) =~= Seq::<char>::empty());
        assert(v[0] == '"');
        assert(v.skip(1) =~= rest);
        assert(acc + s =~= acc);
    } else {
        let c = s[0];
        let s1 = s.drop_first();
        assert(esc(s) == esc_char(c) + esc(s1));
        if c == '"' || c == '\\' {
            assert(esc_char(c) =~= seq!['\\', c]);
            assert(v[0] == '\\');
            assert(v[1] == c);
            assert(v.len() >= 2);
            assert(v.skip(2) =~= esc(s1) + seq!['"'] + rest);
            lemma_sp_str_body(s1, rest, acc.push(c));
            assert(acc.push(c) + s1 =~= acc + s);
        } else {
            assert(esc_char(c) =~= seq![c]);
            assert(v[0] == c);
            assert(v.skip(1) =~= esc(s1) + seq!['"'] + rest);
            lemma_sp_str_body(s1, rest, acc.push(c));
            assert(acc.push(c) + s1 =~= acc + s);
        }
    }
}

/// Whatever the scan accepts grows its accumulator, and what it consumed is
/// exactly the escaped form of the growth, closing quote included.
pub proof fn lemma_sp_str_body_sound(v: Seq<char>, acc: Seq<char>)
    ensures
        match sp_str_body(v, acc) {
            Some((s, rest)) => acc.len() <= s.len() && s.take(acc.len() as int) == acc && v == esc(
                s.skip(acc.len() as int),
            ) + seq!['"'] + rest,
            None => true,
        },
    decreases v.len(),
{
    if v.len() == 0 {
    } else if v[0] == '"' {
        assert(acc.take(acc.len() as int) =~= acc);
        assert(acc.skip(acc.len() as int) =~= Seq::<char>::empty());
        assert(v =~= esc(Seq::<char>::empty()) + seq!['"'] + v.skip(1));
    } else if v[0] == '\\' {
        if v.len() >= 2 && (v[1] == '"' || v[1] == '\\') {
            lemma_sp_str_body_sound(v.skip(2), acc.push(v[1]));
            match sp_str_body(v.skip(2), acc.push(v[1])) {
                Some((s, rest)) => {
                    let t = s.skip(acc.len() as int);
                    assert(s[acc.len() as int] == acc.push(v[1])[acc.len() as int]);
                    assert(t[0] == v[1]);
                    assert(t.drop_first() =~= s.skip(acc.len() as int + 1));
                    assert(esc(t) == esc_char(t[0]) + esc(t.drop_first()));
                    assert(esc_char(v[1]) =~= seq!['\\', v[1]]);
                    assert(v =~= seq!['\\', v[1]] + v.skip(2));
                    assert(esc(t) =~= seq!['\\', v[1]] + esc(t.drop_first()));
                    assert(v =~= esc(t) + seq!['"'] + rest);
                    assert(s.take(acc.len() as int) =~= acc.push(v[1]).take(acc.len() as int));
                    assert(s.take(acc.len() as int) =~= acc);
                },
                None => {},
            }
        }
    } else {
        lemma_sp_str_body_sound(v.skip(1), acc.push(v[0]));
        match sp_str_body(v.skip(1), acc.push(v[0])) {
            Some((s, rest)) => {
                let t = s.skip(acc.len() as int);
                assert(s[acc.len() as int] == acc.push(v[0])[acc.len() as int]);
                assert(t[0] == v[0]);
                assert(t.drop_first() =~= s.skip(acc.len() as int + 1));
                assert(esc(t) == esc_char(t[0]) + esc(t.drop_first()));
                assert(esc_char(v[0]) =~= seq![v[0]]);
                assert(v =~= seq![v[0]] + v.skip(1));
                assert(esc(t) =~= seq![v[0]] + esc(t.drop_first()));
                assert(v =~= esc(t) + seq!['"'] + rest);
                assert(s.take(acc.len() as int) =~= acc.push(v[0]).take(acc.len() as int));
                assert(s.take(acc.len() as int) =~= acc);
            },
            None => {},
        }
    }
}

/// Whatever the field reader accepts, it consumed exactly the quoted form of
/// what it returned.
pub proof fn lemma_sp_quoted_sound(v: Seq<char>)
    ensures
        match sp_quoted(v) {
            Some((s, rest)) => v == quoted(s) + rest,
            None => true,
        },
{
    if v.len() >= 1 && v[0] == '"' {
        lemma_sp_str_body_sound(v.skip(1), Seq::<char>::empty());
        match sp_quoted(v) {
            Some((s, rest)) => {
                assert(s.skip(0) =~= s);
                assert(v =~= seq!['"'] + v.skip(1));
                assert(v =~= quoted(s) + rest);
            },
            None => {},
        }
    }
}

/// Reading a quoted field back yields the field and what followed it.
pub proof fn lemma_sp_quoted(s: Seq<char>, rest: Seq<char>)
    ensures
        sp_quoted(quoted(s) + rest) == Some((s, rest)),
{
    let v = quoted(s) + rest;
    assert(v[0] == '"');
    assert(v.skip(1) =~= esc(s) + seq!['"'] + rest);
    lemma_sp_str_body(s, rest, Seq::<char>::empty());
    assert(Seq::<char>::empty() + s =~= s);
}

/// Parses a quoted field starting at `i`; on success returns the field and
/// the position just past its closing quote.
pub fn parse_quoted(s: &str, i: usize, n: usize) -> (r: Option<(String, usize)>)
    requires
        n == s@.len(),
        i <= n,
    ensures
        match r {
            Some(t) => i < t.1 <= n && sp_quoted(s@.skip(i as int)) == Some(
                (t.0@, s@.skip(t.1 as int)),
            ),
            None => sp_quoted(s@.skip(i as int)) is None,
        },
{
    if i >= n || s.get_char(i) != '"' {
        return None;
    }
    let mut cur: usize = i + 1;
    let mut acc = String::new();
    proof {
        assert(s@.skip(i as int)[0] == '"');
        assert(s@.skip(i as int).skip(1) =~= s@.skip(i + 1));
    }
    loop
        invariant
            n == s@.len(),
            i + 1 <= cur <= n,
            sp_quoted(s@.skip(i as int)) == sp_str_body(s@.skip(cur as int), acc@),
        decreases n - cur,
    {
        if cur >= n {
            assert(s@.skip(cur as int).len() == 0);
            return None;
        }
        let c = s.get_char(cur);
        let ghost v = s@.skip(cur as int);
        assert(v[0] == c);
        if c == '"' {
            assert(v.skip(1) =~= s@.skip(cur + 1));
            return Some((acc, cur + 1));
        } else if c == '\\' {
            if cur + 1 >= n {
                assert(v.len() < 2);
                return None;
            }
            let c2 = s.get_char(cur + 1);
            assert(v[1] == c2);
            if c2 == '"' || c2 == '\\' {
                push_char(&mut acc, c2);
                proof {
                    assert(v.skip(2) =~= s@.skip(cur + 2));
                }
                cur = cur + 2;
            } else {
                return None;
            }
        } else {
            push_char(&mut acc, c);
            proof {
                assert(v.skip(1) =~= s@.skip(cur + 1));
            }
            cur = cur + 1;
        }
    }
}

/// A fixed piece of the document: succeeds only on exactly `l`, leaving the
/// rest.
pub open spec fn sp_lit(v: Seq<char>, l: Seq<char>) -> Option<Seq<char>> {
    if v.len() >= l.len() && v.subrange(0, l.len() as int) == l {
        Some(v.skip(l.len() as int))
    } else {
        None
    }
}

/// What a literal wrote is read back, leaving exactly what followed.
pub proof fn lemma_sp_lit(l: Seq<char>, rest: Seq<char>)
    ensures
        sp_lit(l + rest, l) == Some(rest),
{
    let v = l + rest;
    assert(v.subrange(0, l.len() as int) =~= l);
    assert(v.skip(l.len() as int) =~= rest);
}

/// Whatever the literal matcher accepts, it consumed exactly the literal.
pub proof fn lemma_sp_lit_sound(v: Seq<char>, l: Seq<char>)
    ensures
        match sp_lit(v, l) {
            Some(rest) => v == l + rest,
            None => true,
        },
{
    match sp_lit(v, l) {
        Some(rest) => {
            assert(v =~= v.subrange(0, l.len() as int) + v.skip(l.len() as int));
            assert(v =~= l + rest);
        },
        None => {},
    }
}

/// Matches the fixed text `lit` at position `i`; on success returns the
/// position just past it.
pub fn expect_lit(s: &str, i: usize, n: usize, lit: &str) -> (r: Option<usize>)
    requires
        n == s@.len(),
        i <= n,
    ensures
        match r {
            Some(j) => i <= j <= n && j - i == lit@.len() && sp_lit(s@.skip(i as int), lit@)
                == Some(s@.skip(j as int)),
            None => sp_lit(s@.skip(i as int), lit@) is None,
        },
{
    let m = lit.unicode_len();
    if n - i < m {
        assert(s@.skip(i as int).len() < lit@.len());
        return None;
    }
    let mut k: usize = 0;
    while k < m
        invariant
            n == s@.len(),
            m == lit@.len(),
            i + m <= n,
            0 <= k <= m,
            forall|j: int| 0 <= j < k ==> s@.skip(i as int)[j] == lit@[j],
        decreases m - k,
    {
        let a = s.get_char(i + k);
        let b = lit.get_char(k);
        assert(s@.skip(i as int)[k as int] == a);
        if a != b {
            proof {
                let v = s@.skip(i as int);
                assert(v.len() >= lit@.len());
                assert(v.subrange(0, lit@.len() as int)[k as int] != lit@[k as int]);
            }
            return None;
        }
        k += 1;
    }
    proof {
        let v = s@.skip(i as int);
        assert(v.subrange(0, lit@.len() as int) =~= lit@);
        assert(v.skip(lit@.len() as int) =~= s@.skip(i + m));
    }
    Some(i + m)
}

// ---------------------------------------------------------------------------
// One record.
// ---------------------------------------------------------------------------
/// An optional field as written: the quoted value, or the word null.
pub open spec fn opt_field(o: Option<Seq<char>>) -> Seq<char> {
    match o {
        Some(s) => quoted(s),
        None => "null"@,
    }
}

/// Reads an optional field: the word null, or a quoted value.
pub open spec fn sp_opt(v: Seq<char>) -> Option<(Option<Seq<char>>, Seq<char>)> {
    if v.len() >= 4 && v.subrange(0, 4) == "null"@ {
        Some((None, v.skip(4)))
    } else {
        match sp_quoted(v) {
            Some(t) => Some((Some(t.0), t.1)),
            None => None,
        }
    }
}

/// Reading an optional field back yields the value and what followed it.
pub proof fn lemma_sp_opt(o: Option<Seq<char>>, rest: Seq<char>)
    ensures
        sp_opt(opt_field(o) + rest) == Some((o, rest)),
{
    reveal_strlit("null");
    let v = opt_field(o) + rest;
    match o {
        None => {
            assert(v.subrange(0, 4) =~= "null"@);
            assert(v.skip(4) =~= rest);
        },
        Some(s) => {
            assert(v[0] == '"');
            assert(v.len() >= 4 ==> v.subrange(0, 4)[0] == '"');
            assert(!(v.len() >= 4 && v.subrange(0, 4) == "null"@));
            lemma_sp_quoted(s, rest);
        },
    }
}

/// Whatever the optional-field reader accepts, it consumed exactly the
/// field's written form.
pub proof fn lemma_sp_opt_sound(v: Seq<char>)
    ensures
        match sp_opt(v) {
            Some((o, rest)) => v == opt_field(o) + rest,
            None => true,
        },
{
    if v.len() >= 4 && v.subrange(0, 4) == "null"@ {
        assert(v =~= v.subrange(0, 4) + v.skip(4));
    } else {
        lemma_sp_quoted_sound(v);
    }
}

/// Parses an optional field at `i`: either the word null or a quoted value.
pub fn parse_opt(s: &str, i: usize, n: usize) -> (r: Option<(Option<String>, usize)>)
    requires
        n == s@.len(),
        i <= n,
    ensures
        match r {
            Some(t) => i < t.1 <= n && sp_opt(s@.skip(i as int)) == Some(
                (opt_view(t.0), s@.skip(t.1 as int)),
            ),
            None => sp_opt(s@.skip(i as int)) is None,
        },
{
    proof {
        reveal_strlit("null");
    }
    match expect_lit(s, i, n, "null") {
        Some(j) => {
            proof {
                let v = s@.skip(i as int);
                assert(v.len() >= 4 && v.subrange(0, 4) == "null"@);
            }
            Some((None, j))
        },
        None => {
            proof {
                let v = s@.skip(i as int);
                assert(!(v.len() >= 4 && v.subrange(0, 4) == "null"@));
            }
            match parse_quoted(s, i, n) {
                Some(t) => Some((Some(t.0), t.1)),
                None => None,
            }
        },
    }
}

/// One record as written: the five fields, fixed keys, in one line.
pub open spec fn record_doc(p: PackageDataV) -> Seq<char> {
    "{\"name\":"@ + quoted(p.name) + ",\"type\":"@ + quoted(p.package_type.tag_spec())
        + ",\"version\":"@ + opt_field(p.version) + ",\"channel\":"@ + opt_field(p.channel)
        + ",\"hash\":"@ + quoted(p.hash) + "}"@
}

/// Reads one record: five fields behind fixed keys; the type tag must be one
/// of the four known tags.
pub open spec fn sp_record(v: Seq<char>) -> Option<(PackageDataV, Seq<char>)> {
    match sp_lit(v, "{\"name\":"@) {
        None => None,
        Some(v1) => match sp_quoted(v1) {
            None => None,
            Some((name, v2)) => match sp_lit(v2, ",\"type\":"@) {
                None => None,
                Some(v3) => match sp_quoted(v3) {
                    None => None,
                    Some((tag, v4)) => match type_of_tag(tag) {
                        None => None,
                        Some(t) => match sp_lit(v4, ",\"version\":"@) {
                            None => None,
                            Some(v5) => match sp_opt(v5) {
                                None => None,
                                Some((version, v6)) => match sp_lit(v6, ",\"channel\":"@) {
                                    None => None,
                                    Some(v7) => match sp_opt(v7) {
                                        None => None,
                                        Some((channel, v8)) => match sp_lit(v8, ",\"hash\":"@) {
                                            None => None,
                                            Some(v9) => match sp_quoted(v9) {
                                                None => None,
                                                Some((hash, v10)) => match sp_lit(v10, "}"@) {
                                                    None => None,
                                                    Some(v11) => Some(
                                                        (
                                                            PackageDataV {
                                                                name,
                                                                package_type: t,
                                                                version,
                                                                channel,
                                                                hash,
                                                            },
                                                            v11,
                                                        ),
                                                    ),
                                                },
                                            },
                                        },
                                    },
                                },
                            },
                        },
                    },
                },
            },
        },
    }
}

/// Reading a record back yields the record and what followed it.
#[verifier::rlimit(100)]
pub proof fn lemma_sp_record(p: PackageDataV, rest: Seq<char>)
    ensures
        sp_record(record_doc(p) + rest) == Some((p, rest)),
{
    let tag = p.package_type.tag_spec();
    let t10 = "}"@ + rest;
    let t9 = quoted(p.hash) + t10;
    let t8 = ",\"hash\":"@ + t9;
    let t7 = opt_field(p.channel) + t8;
    let t6 = ",\"channel\":"@ + t7;
    let t5 = opt_field(p.version) + t6;
    let t4 = ",\"version\":"@ + t5;
    let t3 = quoted(tag) + t4;
    let t2 = ",\"type\":"@ + t3;
    let t1 = quoted(p.name) + t2;
    let v = record_doc(p) + rest;
    assert(v =~= "{\"name\":"@ + t1);
    lemma_sp_lit("{\"name\":"@, t1);
    lemma_sp_quoted(p.name, t2);
    lemma_sp_lit(",\"type\":"@, t3);
    lemma_sp_quoted(tag, t4);
    crate::package::lemma_type_of_tag_round_trip(p.package_type);
    lemma_sp_lit(",\"version\":"@, t5);
    lemma_sp_opt(p.version, t6);
    lemma_sp_lit(",\"channel\":"@, t7);
    lemma_sp_opt(p.channel, t8);
    lemma_sp_lit(",\"hash\":"@, t9);
    lemma_sp_quoted(p.hash, t10);
    lemma_sp_lit("}"@, rest);
    assert(sp_record(v) == Some((p, rest)));
}

/// Whatever the record reader accepts, it consumed exactly the record's
/// written form.
#[verifier::rlimit(100)]
pub proof fn lemma_sp_record_sound(v: Seq<char>)
    ensures
        match sp_record(v) {
            Some((p, rest)) => v == record_doc(p) + rest,
            None => true,
        },
{
    match sp_lit(v, "{\"name\":"@) {
        None => {},
        Some(v1) => {
            lemma_sp_lit_sound(v, "{\"name\":"@);
            match sp_quoted(v1) {
                None => {},
                Some((name, v2)) => {
                    lemma_sp_quoted_sound(v1);
                    match sp_lit(v2, ",\"type\":"@) {
                        None => {},
                        Some(v3) => {
                            lemma_sp_lit_sound(v2, ",\"type\":"@);
                            match sp_quoted(v3) {
                                None => {},
                                Some((tag, v4)) => {
                                    lemma_sp_quoted_sound(v3);
                                    match type_of_tag(tag) {
                                        None => {},
                                        Some(t) => {
                                            crate::package::lemma_type_of_tag_sound(tag, t);
                                            match sp_lit(v4, ",\"version\":"@) {
                                                None => {},
                                                Some(v5) => {
                                                    lemma_sp_lit_sound(v4, ",\"version\":"@);
                                                    match sp_opt(v5) {
                                                        None => {},
                                                        Some((version, v6)) => {
                                                            lemma_sp_opt_sound(v5);
                                                            assert(v =~= "{\"name\":"@ + quoted(
                                                                name,
                                                            ) + ",\"type\":"@ + quoted(
                                                                t.tag_spec(),
                                                            ) + ",\"version\":"@ + opt_field(
                                                                version,
                                                            ) + v6);
                                                            lemma_sp_record_sound_tail(
                                                                v,
                                                                v6,
                                                                name,
                                                                t,
                                                                version,
                                                            );
                                                        },
                                                    }
                                                },
                                            }
                                        },
                                    }
                                },
                            }
                        },
                    }
                },
            }
        },
    }
}

/// The second half of the record reader's soundness: from the channel key
/// on, given what the first half consumed.
#[verifier::rlimit(100)]
proof fn lemma_sp_record_sound_tail(
    v: Seq<char>,
    v6: Seq<char>,
    name: Seq<char>,
    t: PackageType,
    version: Option<Seq<char>>,
)
    requires
        v == "{\"name\":"@ + quoted(name) + ",\"type\":"@ + quoted(t.tag_spec()) + ",\"version\":"@
            + opt_field(version) + v6,
    ensures
        match sp_lit(v6, ",\"channel\":"@) {
            Some(v7) => match sp_opt(v7) {
                Some((channel, v8)) => match sp_lit(v8, ",\"hash\":"@) {
                    Some(v9) => match sp_quoted(v9) {
                        Some((hash, v10)) => match sp_lit(v10, "}"@) {
                            Some(rest) => v == record_doc(
                                PackageDataV { name, package_type: t, version, channel, hash },
                            ) + rest,
                            None => true,
                        },
                        None => true,
                    },
                    None => true,
                },
                None => true,
            },
            None => true,
        },
{
    match sp_lit(v6, ",\"channel\":"@) {
        None => {},
        Some(v7) => {
            lemma_sp_lit_sound(v6, ",\"channel\":"@);
            match sp_opt(v7) {
                None => {},
                Some((channel, v8)) => {
                    lemma_sp_opt_sound(v7);
                    match sp_lit(v8, ",\"hash\":"@) {
                        None => {},
                        Some(v9) => {
                            lemma_sp_lit_sound(v8, ",\"hash\":"@);
                            match sp_quoted(v9) {
                                None => {},
                                Some((hash, v10)) => {
                                    lemma_sp_quoted_sound(v9);
                                    match sp_lit(v10, "}"@) {
                                        None => {},
                                        Some(rest) => {
                                            lemma_sp_lit_sound(v10, "}"@);
                                            let p = PackageDataV {
                                                name,
                                                package_type: t,
                                                version,
                                                channel,
                                                hash,
                                            };
                                            assert(v =~= record_doc(p) + rest);
                                        },
                                    }
                                },
                            }
                        },
                    }
                },
            }
        },
    }
}

/// Parses one record at `i`; on success returns it and the position just
/// past its closing brace.
pub fn parse_record(s: &str, i: usize, n: usize) -> (r: Option<(PackageData, usize)>)
    requires
        n == s@.len(),
        i <= n,
    ensures
        match r {
            Some(t) => i < t.1 <= n && sp_record(s@.skip(i as int)) == Some(
                (t.0@, s@.skip(t.1 as int)),
            ),
            None => sp_record(s@.skip(i as int)) is None,
        },
{
    proof {
        reveal_strlit("{\"name\":");
    }
    let j1 = match expect_lit(s, i, n, "{\"name\":") {
        Some(j) => j,
        None => {
            return None;
        },
    };
    let (name, j2) = match parse_quoted(s, j1, n) {
        Some(t) => t,
        None => {
            return None;
        },
    };
    let j3 = match expect_lit(s, j2, n, ",\"type\":") {
        Some(j) => j,
        None => {
            return None;
        },
    };
    let (tag, j4) = match parse_quoted(s, j3, n) {
        Some(t) => t,
        None => {
            return None;
        },
    };
    let package_type = match parse_type(tag.as_str()) {
        Some(t) => t,
        None => {
            return None;
        },
    };
    let j5 = match expect_lit(s, j4, n, ",\"version\":") {
        Some(j) => j,
        None => {
            return None;
        },
    };
    let (version, j6) = match parse_opt(s, j5, n) {
        Some(t) => t,
        None => {
            return None;
        },
    };
    let j7 = match expect_lit(s, j6, n, ",\"channel\":") {
        Some(j) => j,
        None => {
            return None;
        },
    };
    let (channel, j8) = match parse_opt(s, j7, n) {
        Some(t) => t,
        None => {
            return None;
        },
    };
    let j9 = match expect_lit(s, j8, n, ",\"hash\":") {
        Some(j) => j,
        None => {
            return None;
        },
    };
    let (hash, j10) = match parse_quoted(s, j9, n) {
        Some(t) => t,
        None => {
            return None;
        },
    };
    let j11 = match expect_lit(s, j10, n, "}") {
        Some(j) => j,
        None => {
            return None;
        },
    };
    let pd = PackageData { name, package_type, version, channel, hash };
    proof {
        assert(sp_record(s@.skip(i as int)) == Some((pd@, s@.skip(j11 as int))));
    }
    Some((pd, j11))
}

/// Appends an optional field to the document.
pub fn write_opt(out: &mut String, o: &Option<String>)
    ensures
        final(out)@ == old(out)@ + opt_field(opt_view(*o)),
{
    match o {
        Some(sv) => write_quoted(out, sv.as_str()),
        None => out.append("null"),
    }
}

/// Appends one record to the document, exactly as `record_doc` lays it out.
pub fn write_record(out: &mut String, p: &PackageData)
    ensures
        final(out)@ == old(out)@ + record_doc(p@),
{
    out.append("{\"name\":");
    write_quoted(out, p.name.as_str());
    out.append(",\"type\":");
    let tag = p.package_type.tag();
    write_quoted(out, tag.as_str());
    out.append(",\"version\":");
    write_opt(out, &p.version);
    out.append(",\"channel\":");
    write_opt(out, &p.channel);
    out.append(",\"hash\":");
    write_quoted(out, p.hash.as_str());
    out.append("}");
    proof {
        assert(out@ =~= old(out)@ + record_doc(p@));
    }
}

// ---------------------------------------------------------------------------
// The whole document.
// ---------------------------------------------------------------------------
/// The records, one per line, a comma at each line's end but the last.
pub open spec fn records_doc(s: Seq<PackageDataV>) -> Seq<char>
    decreases s.len(),
{
    if s.len() == 0 {
        Seq::<char>::empty()
    } else if s.len() == 1 {
        record_doc(s[0])
    } else {
        record_doc(s[0]) + ",\n"@ + records_doc(s.drop_first())
    }
}

pub proof fn lemma_records_doc_push(s: Seq<PackageDataV>, p: PackageDataV)
    ensures
        records_doc(s.push(p)) == if s.len() == 0 {
            record_doc(p)
        } else {
            records_doc(s) + ",\n"@ + record_doc(p)
        },
    decreases s.len(),
{
    if s.len() == 0 {
        assert(s.push(p)[0] == p);
        assert(records_doc(s.push(p)) == record_doc(p));
    } else {
        lemma_records_doc_push(s.drop_first(), p);
        assert(s.push(p)[0] == s[0]);
        assert(s.push(p).drop_first() =~= s.drop_first().push(p));
        if s.len() == 1 {
            assert(records_doc(s.push(p)) =~= records_doc(s) + ",\n"@ + record_doc(p));
        } else {
            assert(records_doc(s.push(p)) =~= records_doc(s) + ",\n"@ + record_doc(p));
        }
    }
}

/// The whole state document: the records between brackets, or `[]` for the
/// empty set.
pub open spec fn state_doc(s: Seq<PackageDataV>) -> Seq<char> {
    if s.len() == 0 {
        "[]"@
    } else {
        "[\n"@ + records_doc(s) + "\n]"@
    }
}

/// A record line is never empty: it opens with its first fixed key.
pub proof fn lemma_record_doc_len(p: PackageDataV)
    ensures
        record_doc(p).len() >= 8,
{
    reveal_strlit("{\"name\":");
}

/// Reads records until the closing bracket; `acc` is what has already been
/// read. Each record is followed either by a comma and a line break, or by
/// the document's last line.
pub open spec fn sp_records(v: Seq<char>, acc: Seq<PackageDataV>) -> Option<Seq<PackageDataV>>
    decreases v.len(),
{
    match sp_record(v) {
        None => None,
        Some((p, rest)) => if rest == seq!['\n', ']'] {
            Some(acc.push(p))
        } else if rest.len() >= 2 && rest[0] == ',' && rest[1] == '\n' && rest.len() < v.len() {
            sp_records(rest.skip(2), acc.push(p))
        } else {
            None
        },
    }
}

/// Reads a whole document: `[]`, or records between brackets.
pub open spec fn sp_state(v: Seq<char>) -> Option<Seq<PackageDataV>> {
    if v == "[]"@ {
        Some(Seq::<PackageDataV>::empty())
    } else if v.len() >= 2 && v[0] == '[' && v[1] == '\n' {
        sp_records(v.skip(2), Seq::<PackageDataV>::empty())
    } else {
        None
    }
}

#[verifier::rlimit(100)]
pub proof fn lemma_sp_records(s: Seq<PackageDataV>, acc: Seq<PackageDataV>)
    requires
        s.len() > 0,
    ensures
        sp_records(records_doc(s) + "\n]"@, acc) == Some(acc + s),
    decreases s.len(),
{
    reveal_strlit(",\n");
    reveal_strlit("\n]");
    let v = records_doc(s) + "\n]"@;
    if s.len() == 1 {
        lemma_sp_record(s[0], "\n]"@);
        assert("\n]"@ =~= seq!['\n', ']']);
        assert(acc + s =~= acc.push(s[0]));
    } else {
        let s1 = s.drop_first();
        let rest = ",\n"@ + records_doc(s1) + "\n]"@;
        assert(v =~= record_doc(s[0]) + rest);
        lemma_sp_record(s[0], rest);
        assert(rest[0] == ',');
        assert(rest[1] == '\n');
        assert(rest.len() == 4 + records_doc(s1).len());
        assert(rest != seq!['\n', ']']);
        lemma_record_doc_len(s[0]);
        assert(v.len() == record_doc(s[0]).len() + rest.len());
        assert(rest.len() < v.len());
        assert(rest.skip(2) =~= records_doc(s1) + "\n]"@);
        lemma_sp_records(s1, acc.push(s[0]));
        assert(acc.push(s[0]) + s1 =~= acc + s);
    }
}

/// Whatever the record-list reader accepts, it consumed exactly the written
/// form of the records it appended, last line included.
#[verifier::rlimit(100)]
pub proof fn lemma_sp_records_sound(v: Seq<char>, acc: Seq<PackageDataV>)
    ensures
        match sp_records(v, acc) {
            Some(out) => acc.len() < out.len() && out.take(acc.len() as int) == acc && v
                == records_doc(out.skip(acc.len() as int)) + "\n]"@,
            None => true,
        },
    decreases v.len(),
{
    reveal_strlit(",\n");
    reveal_strlit("\n]");
    match sp_record(v) {
        None => {},
        Some((p, rest)) => {
            lemma_sp_record_sound(v);
            if rest == seq!['\n', ']'] {
                assert(acc.push(p).take(acc.len() as int) =~= acc);
                let t = acc.push(p).skip(acc.len() as int);
                assert(t =~= seq![p]);
                assert(seq![p][0] == p);
                assert(records_doc(seq![p]) == record_doc(p));
                assert("\n]"@ =~= seq!['\n', ']']);
                assert(v =~= records_doc(t) + "\n]"@);
            } else if rest.len() >= 2 && rest[0] == ',' && rest[1] == '\n' && rest.len() < v.len() {
                lemma_sp_records_sound(rest.skip(2), acc.push(p));
                match sp_records(rest.skip(2), acc.push(p)) {
                    None => {},
                    Some(out) => {
                        assert(out.take(acc.len() as int + 1).take(acc.len() as int) =~= out.take(
                            acc.len() as int,
                        ));
                        assert(out.take(acc.len() as int) =~= acc);
                        let t = out.skip(acc.len() as int);
                        assert(out[acc.len() as int] == out.take(acc.len() as int + 1)[acc.len() as int]);
                        assert(t[0] == p);
                        assert(t.drop_first() =~= out.skip(acc.len() as int + 1));
                        assert(t.len() >= 2);
                        assert(records_doc(t) == record_doc(t[0]) + ",\n"@ + records_doc(
                            t.drop_first(),
                        ));
                        assert(rest =~= seq![',', '\n'] + rest.skip(2));
                        assert(",\n"@ =~= seq![',', '\n']);
                        assert(v =~= records_doc(t) + "\n]"@);
                    },
                }
            }
        },
    }
}

/// Law: the store's round trip is exact. Parsing the document written for
/// any list of records yields exactly that list, order preserved.
pub proof fn lemma_state_round_trip(s: Seq<PackageDataV>)
    ensures
        sp_state(state_doc(s)) == Some(s),
{
    reveal_strlit("[]");
    reveal_strlit("[\n");
    if s.len() == 0 {
        assert(Seq::<PackageDataV>::empty() =~= s);
    } else {
        let v = state_doc(s);
        lemma_record_doc_len(s[0]);
        if s.len() == 1 {
            assert(records_doc(s).len() >= 8);
        } else {
            assert(records_doc(s).len() >= record_doc(s[0]).len());
        }
        assert(v.len() > 2);
        assert(v != "[]"@);
        assert(v[0] == '[');
        assert(v[1] == '\n');
        assert(v.skip(2) =~= records_doc(s) + "\n]"@);
        lemma_sp_records(s, Seq::<PackageDataV>::empty());
        assert(Seq::<PackageDataV>::empty() + s =~= s);
    }
}

/// Law: saving what was loaded is a no-op on content. Any document the
/// store wrote comes back character for character after a load and a second
/// save, the order of records preserved.
pub proof fn lemma_save_after_load(x: Seq<PackageDataV>)
    ensures
        match sp_state(state_doc(x)) {
            Some(s) => state_doc(s) == state_doc(x),
            None => false,
        },
{
    lemma_state_round_trip(x);
}

/// Law: saving what was loaded is a no-op on content, for every document the
/// parser accepts, not only those this store wrote: whatever text parses,
/// writing the parsed records yields that text back character for character,
/// order preserved. The parser accepts exactly the canonical documents.
pub proof fn lemma_load_then_save(v: Seq<char>)
    ensures
        match sp_state(v) {
            Some(s) => state_doc(s) == v,
            None => true,
        },
{
    reveal_strlit("[]");
    reveal_strlit("[\n");
    if v == "[]"@ {
    } else if v.len() >= 2 && v[0] == '[' && v[1] == '\n' {
        lemma_sp_records_sound(v.skip(2), Seq::<PackageDataV>::empty());
        match sp_records(v.skip(2), Seq::<PackageDataV>::empty()) {
            None => {},
            Some(s) => {
                assert(s.skip(0) =~= s);
                assert(v =~= seq!['[', '\n'] + v.skip(2));
                assert("[\n"@ =~= seq!['[', '\n']);
                assert(s.len() > 0);
                assert(state_doc(s) =~= v);
            },
        }
    }
}

/// Writes the state document for the given records, exactly as `state_doc`
/// lays it out. Writing then parsing is exact: see `lemma_state_round_trip`.
pub fn serialize_state(ps: &Vec<PackageData>) -> (r: String)
    ensures
        r@ == state_doc(views_of(ps@)),
{
    if ps.len() == 0 {
        let r = String::from_str("[]");
        proof {
            assert(views_of(ps@).len() == 0);
        }
        return r;
    }
    let mut out = String::from_str("[\n");
    let mut i: usize = 0;
    while i < ps.len()
        invariant
            0 <= i <= ps.len(),
            out@ == "[\n"@ + records_doc(views_of(ps@).take(i as int)),
        decreases ps.len() - i,
    {
        if i > 0 {
            out.append(",\n");
        }
        write_record(&mut out, &ps[i]);
        proof {
            let vs = views_of(ps@);
            assert(vs[i as int] == ps@[i as int]@);
            assert(vs.take(i as int).len() == i);
            lemma_records_doc_push(vs.take(i as int), ps@[i as int]@);
            assert(vs.take(i + 1) =~= vs.take(i as int).push(ps@[i as int]@));
            assert(out@ =~= "[\n"@ + records_doc(vs.take(i + 1)));
        }
        i += 1;
    }
    out.append("\n]");
    proof {
        let vs = views_of(ps@);
        assert(vs.take(vs.len() as int) =~= vs);
        assert(vs.len() > 0);
        assert(out@ =~= state_doc(vs));
    }
    out
}

/// Parses a state document. Exactly the documents `serialize_state` writes
/// are accepted; anything else is rejected as corrupt.
pub fn parse_state(content: &str) -> (r: Option<Vec<PackageData>>)
    ensures
        match r {
            Some(ps) => sp_state(content@) == Some(views_of(ps@)),
            None => sp_state(content@) is None,
        },
{
    proof {
        reveal_strlit("[]");
        reveal_strlit("[\n");
        assert(content@.skip(0) =~= content@);
    }
    let n = content.unicode_len();
    let start = match expect_lit(content, 0, n, "[\n") {
        Some(j) => j,
        None => {
            match expect_lit(content, 0, n, "[]") {
                Some(j) => {
                    if j == n {
                        proof {
                            assert(content@.subrange(0, 2) =~= content@);
                            assert(content@ == "[]"@);
                        }
                        let empty: Vec<PackageData> = Vec::new();
                        proof {
                            assert(views_of(empty@) =~= Seq::<PackageDataV>::empty());
                        }
                        return Some(empty);
                    } else {
                        proof {
                            assert(content@[1] == ']');
                            assert(content@.len() > 2);
                            assert(content@ != "[]"@);
                        }
                        return None;
                    }
                },
                None => {
                    proof {
                        if content@ == "[]"@ {
                            assert(content@.subrange(0, 2) =~= "[]"@);
                            assert(false);
                        }
                        if content@.len() >= 2 && content@[0] == '[' && content@[1] == '\n' {
                            assert(content@.subrange(0, 2) =~= "[\n"@);
                            assert(false);
                        }
                    }
                    return None;
                },
            }
        },
    };
    proof {
        assert(content@[1] == '\n');
        assert(content@ != "[]"@);
        assert(start == 2);
    }
    let mut acc: Vec<PackageData> = Vec::new();
    let mut cur: usize = start;
    proof {
        assert(views_of(acc@) =~= Seq::<PackageDataV>::empty());
    }
    loop
        invariant
            n == content@.len(),
            2 <= cur <= n,
            sp_state(content@) == sp_records(content@.skip(cur as int), views_of(acc@)),
        decreases n - cur,
    {
        let (pd, j) = match parse_record(content, cur, n) {
            Some(t) => t,
            None => {
                return None;
            },
        };
        let ghost rest = content@.skip(j as int);
        proof {
            reveal_strlit(",\n");
            reveal_strlit("\n]");
        }
        match expect_lit(content, j, n, ",\n") {
            Some(j2) => {
                proof {
                    assert(rest.len() >= 2 && rest.subrange(0, 2) == ",\n"@);
                    assert(rest[0] == rest.subrange(0, 2)[0]);
                    assert(rest[1] == rest.subrange(0, 2)[1]);
                    assert(rest[0] == ',');
                    assert(rest[1] == '\n');
                    assert(rest != seq!['\n', ']']);
                    assert(rest.len() < content@.skip(cur as int).len());
                    assert(rest.skip(2) =~= content@.skip(j2 as int));
                }
                let ghost old_acc = acc@;
                acc.push(pd);
                proof {
                    assert(views_of(acc@) =~= views_of(old_acc).push(pd@));
                }
                cur = j2;
            },
            None => {
                match expect_lit(content, j, n, "\n]") {
                    Some(j3) => {
                        if j3 == n {
                            proof {
                                assert(rest.len() == 2);
                                assert(rest.subrange(0, 2) == "\n]"@);
                                assert(rest.subrange(0, 2) =~= rest);
                                assert(rest =~= seq!['\n', ']']);
                            }
                            let ghost old_acc = acc@;
                            acc.push(pd);
                            proof {
                                assert(views_of(acc@) =~= views_of(old_acc).push(pd@));
                            }
                            return Some(acc);
                        } else {
                            proof {
                                assert(rest.subrange(0, 2) == "\n]"@);
                                assert(rest[0] == rest.subrange(0, 2)[0]);
                                assert(rest[0] == '\n');
                                assert(rest.len() > 2);
                                assert(rest != seq!['\n', ']']);
                            }
                            return None;
                        }
                    },
                    None => {
                        proof {
                            if rest == seq!['\n', ']'] {
                                assert(rest.subrange(0, 2) =~= "\n]"@);
                                assert(false);
                            }
                            if rest.len() >= 2 && rest[0] == ',' && rest[1] == '\n' {
                                assert(rest.subrange(0, 2) =~= ",\n"@);
                                assert(false);
                            }
                        }
                        return None;
                    },
                }
            },
        }
    }
}

/// Loads the installed set from the state file's text, `None` standing for a
/// missing or unreadable file. Loading never fails: a missing file or a
/// corrupt document yields the empty set, a fresh start.
pub fn get_installed_packages(content: Option<&str>) -> (r: Vec<PackageData>)
    ensures
        match content {
            None => r@.len() == 0,
            Some(c) => match sp_state(c@) {
                Some(s) => views_of(r@) == s,
                None => r@.len() == 0,
            },
        },
{
    match content {
        None => Vec::new(),
        Some(c) => match parse_state(c) {
            Some(ps) => ps,
            None => Vec::new(),
        },
    }
}

} // verus!
