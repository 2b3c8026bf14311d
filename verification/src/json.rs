//! JSON serialization of artifact records.
//!
//! The output format is pinned down, byte for byte, by spec functions:
//! object keys in field order, string values escaped (quote, backslash,
//! and control characters), the discovery year as a decimal integer, and
//! the list as a comma-separated array. The writers below are verified to
//! produce exactly that text.

use vstd::prelude::*;
use vstd::string::StrSliceExecFns;
use vstd::string::StringExecFns;

use crate::artifact::Artifact;
use crate::artifact::ArtifactModel;
use crate::artifact::models_of;

verus! {

/// The character for the hexadecimal digit `d` (also used for decimal
/// digits, which are the first ten entries).
pub open spec fn hex_char(d: int) -> char {
    seq!['0', '1', '2', '3', '4', '5', '6', '7', '8', '9', 'a', 'b', 'c', 'd', 'e', 'f'][d]
}

/// How one character appears inside a JSON string: quote and backslash
/// get a backslash escape, control characters get their short escape or
/// a `\u00XX` escape, and everything else stands as itself.
pub open spec fn escape_char_model(c: char) -> Seq<char> {
    let u = c as u32;
    if c == '"' {
        seq!['\\', '"']
    } else if c == '\\' {
        seq!['\\', '\\']
    } else if u == 0x08 {
        seq!['\\', 'b']
    } else if u == 0x09 {
        seq!['\\', 't']
    } else if u == 0x0A {
        seq!['\\', 'n']
    } else if u == 0x0C {
        seq!['\\', 'f']
    } else if u == 0x0D {
        seq!['\\', 'r']
    } else if u < 0x20 {
        seq!['\\', 'u', '0', '0', hex_char(u as int / 16), hex_char(u as int % 16)]
    } else {
        seq![c]
    }
}

/// The body of a JSON string: every character escaped.
pub open spec fn escape_model(s: Seq<char>) -> Seq<char>
    decreases s.len(),
{
    if s.len() == 0 {
        Seq::empty()
    } else {
        escape_char_model(s[0]) + escape_model(s.drop_first())
    }
}

/// A JSON string literal: the escaped body between double quotes.
pub open spec fn json_string_model(s: Seq<char>) -> Seq<char> {
    seq!['"'] + escape_model(s) + seq!['"']
}

/// The decimal digits of `n`, most significant first, no leading zeros
/// (a single `0` for zero).
pub open spec fn digits_model(n: nat) -> Seq<char>
    decreases n,
{
    if n < 10 {
        seq![hex_char(n as int)]
    } else {
        digits_model(n / 10) + seq![hex_char((n % 10) as int)]
    }
}

/// The JSON object for one artifact: the five fields, in declaration
/// order, with the year as a bare integer.
pub open spec fn artifact_json(a: ArtifactModel) -> Seq<char> {
    "{\"id\":"@ + json_string_model(a.id) + ",\"country_of_origin\":"@ + json_string_model(
        a.country_of_origin,
    ) + ",\"name\":"@ + json_string_model(a.name) + ",\"whereabout\":"@ + json_string_model(
        a.whereabout,
    ) + ",\"year_of_discovery\":"@ + digits_model(a.year_of_discovery as nat) + "}"@
}

/// The objects of `ds`, joined by commas.
pub open spec fn joined_json(ds: Seq<ArtifactModel>) -> Seq<char>
    decreases ds.len(),
{
    if ds.len() == 0 {
        Seq::empty()
    } else if ds.len() == 1 {
        artifact_json(ds[0])
    } else {
        artifact_json(ds[0]) + seq![','] + joined_json(ds.drop_first())
    }
}

/// The JSON array for a sequence of artifacts, in sequence order.
pub open spec fn list_json(ds: Seq<ArtifactModel>) -> Seq<char> {
    seq!['['] + joined_json(ds) + seq![']']
}

/// Escaping a string one character longer escapes the extra character at
/// the end.
proof fn lemma_escape_push(s: Seq<char>, c: char)
    ensures
        escape_model(s.push(c)) == escape_model(s) + escape_char_model(c),
    decreases s.len(),
{
    if s.len() == 0 {
        assert(s.push(c)[0] == c);
        assert(s.push(c).drop_first() =~= s);
        assert(escape_model(s.push(c)) == escape_char_model(c) + escape_model(s));
        assert(escape_model(s) == Seq::<char>::empty());
        assert(escape_model(s) + escape_char_model(c) =~= escape_char_model(c) + escape_model(s));
    } else {
        assert(s.push(c)[0] == s[0]);
        assert(s.push(c).drop_first() =~= s.drop_first().push(c));
        lemma_escape_push(s.drop_first(), c);
        assert(escape_model(s.push(c)) == escape_char_model(s[0]) + escape_model(
            s.drop_first().push(c),
        ));
        assert(escape_model(s) == escape_char_model(s[0]) + escape_model(s.drop_first()));
        assert(escape_model(s.push(c)) =~= escape_model(s) + escape_char_model(c));
    }
}

/// Joining one more object appends a comma (when anything precedes it)
/// and that object.
proof fn lemma_joined_push(ds: Seq<ArtifactModel>, a: ArtifactModel)
    ensures
        ds.len() == 0 ==> joined_json(ds.push(a)) == artifact_json(a),
        ds.len() >= 1 ==> joined_json(ds.push(a)) == joined_json(ds) + seq![','] + artifact_json(
            a,
        ),
    decreases ds.len(),
{
    if ds.len() == 0 {
        assert(ds.push(a)[0] == a);
    } else {
        assert(ds.push(a).drop_first() =~= ds.drop_first().push(a));
        lemma_joined_push(ds.drop_first(), a);
        assert(joined_json(ds.push(a)) =~= joined_json(ds) + seq![','] + artifact_json(a));
    }
}

/// The one-character string for the hexadecimal digit `d`.
fn hex_digit_str(d: u8) -> (r: &'static str)
    requires
        d < 16,
    ensures
        r@ == seq![hex_char(d as int)],
{
    let s = "0123456789abcdef";
    proof {
        reveal_strlit("0123456789abcdef");
        assert(s@ =~= seq![
            '0', '1', '2', '3', '4', '5', '6', '7', '8', '9', 'a', 'b', 'c', 'd', 'e', 'f',
        ]);
    }
    let r = s.substring_char(d as usize, d as usize + 1);
    proof {
        assert(r@ =~= seq![hex_char(d as int)]);
    }
    r
}

/// Appends the decimal digits of `n` to `out`.
fn append_digits(out: &mut String, n: u16)
    ensures
        final(out)@ == old(out)@ + digits_model(n as nat),
    decreases n,
{
    if n < 10 {
        out.append(hex_digit_str(n as u8));
    } else {
        proof {
            assert(n / 10 < n) by (nonlinear_arith)
                requires
                    n >= 10,
            ;
        }
        append_digits(out, n / 10);
        out.append(hex_digit_str((n % 10) as u8));
        proof {
            assert(out@ =~= old(out)@ + digits_model(n as nat));
        }
    }
}

/// Appends the JSON string literal for `s` to `out`: an opening quote,
/// every character escaped, a closing quote.
fn append_json_string(out: &mut String, s: &str)
    ensures
        final(out)@ == old(out)@ + json_string_model(s@),
{
    proof {
        reveal_strlit("\"");
    }
    out.append("\"");
    let ghost base = out@;
    let n = s.unicode_len();
    let mut i: usize = 0;
    proof {
        assert(s@.take(0) =~= Seq::<char>::empty());
    }
    while i < n
        invariant
            n == s@.len(),
            i <= n,
            out@ == base + escape_model(s@.take(i as int)),
        decreases n - i,
    {
        proof {
            lemma_escape_push(s@.take(i as int), s@[i as int]);
            assert(s@.take(i as int + 1) =~= s@.take(i as int).push(s@[i as int]));
        }
        let c = s.get_char(i);
        let u = c as u32;
        if c == '"' {
            proof {
                reveal_strlit("\\\"");
                assert("\\\""@ =~= seq!['\\', '"']);
            }
            out.append("\\\"");
        } else if c == '\\' {
            proof {
                reveal_strlit("\\\\");
                assert("\\\\"@ =~= seq!['\\', '\\']);
            }
            out.append("\\\\");
        } else if u == 0x08 {
            proof {
                reveal_strlit("\\b");
                assert("\\b"@ =~= seq!['\\', 'b']);
            }
            out.append("\\b");
        } else if u == 0x09 {
            proof {
                reveal_strlit("\\t");
                assert("\\t"@ =~= seq!['\\', 't']);
            }
            out.append("\\t");
        } else if u == 0x0A {
            proof {
                reveal_strlit("\\n");
                assert("\\n"@ =~= seq!['\\', 'n']);
            }
            out.append("\\n");
        } else if u == 0x0C {
            proof {
                reveal_strlit("\\f");
                assert("\\f"@ =~= seq!['\\', 'f']);
            }
            out.append("\\f");
        } else if u == 0x0D {
            proof {
                reveal_strlit("\\r");
                assert("\\r"@ =~= seq!['\\', 'r']);
            }
            out.append("\\r");
        } else if u < 0x20 {
            proof {
                reveal_strlit("\\u00");
                assert("\\u00"@ =~= seq!['\\', 'u', '0', '0']);
            }
            out.append("\\u00");
            out.append(hex_digit_str((u / 16) as u8));
            out.append(hex_digit_str((u % 16) as u8));
        } else {
            let piece = s.substring_char(i, i + 1);
            proof {
                assert(piece@ =~= seq![s@[i as int]]);
            }
            out.append(piece);
        }
        proof {
            assert(out@ =~= base + escape_model(s@.take(i as int + 1)));
        }
        i += 1;
    }
    proof {
        reveal_strlit("\"");
        assert(s@.take(n as int) =~= s@);
    }
    out.append("\"");
    proof {
        assert(out@ =~= old(out)@ + json_string_model(s@));
    }
}

/// The JSON string literal for `s`, as its own string.
pub fn json_string(s: &str) -> (r: String)
    ensures
        r@ == json_string_model(s@),
{
    let mut out = String::new();
    append_json_string(&mut out, s);
    proof {
        assert(out@ =~= json_string_model(s@));
    }
    out
}

/// Appends the JSON object for `a` to `out`.
fn append_artifact(out: &mut String, a: &Artifact)
    ensures
        final(out)@ == old(out)@ + artifact_json(a@),
{
    out.append("{\"id\":");
    append_json_string(out, a.id.as_str());
    out.append(",\"country_of_origin\":");
    append_json_string(out, a.country_of_origin.as_str());
    out.append(",\"name\":");
    append_json_string(out, a.name.as_str());
    out.append(",\"whereabout\":");
    append_json_string(out, a.whereabout.as_str());
    out.append(",\"year_of_discovery\":");
    append_digits(out, a.year_of_discovery);
    out.append("}");
    proof {
        assert(out@ =~= old(out)@ + artifact_json(a@));
    }
}

/// The JSON object for one artifact.
pub fn artifact_to_json(a: &Artifact) -> (r: String)
    ensures
        r@ == artifact_json(a@),
{
    let mut out = String::new();
    append_artifact(&mut out, a);
    proof {
        assert(out@ =~= artifact_json(a@));
    }
    out
}

/// The JSON array for the artifacts of `v`, in order.
pub fn artifacts_to_json(v: &Vec<Artifact>) -> (r: String)
    ensures
        r@ == list_json(models_of(v@)),
{
    let mut out = String::new();
    proof {
        reveal_strlit("[");
        assert("["@ =~= seq!['[']);
        reveal_strlit("]");
        assert("]"@ =~= seq![']']);
        reveal_strlit(",");
        assert(","@ =~= seq![',']);
    }
    out.append("[");
    let ghost ds = models_of(v@);
    let n = v.len();
    let mut i: usize = 0;
    proof {
        assert(ds.take(0) =~= Seq::<ArtifactModel>::empty());
        assert(out@ =~= seq!['['] + joined_json(ds.take(0)));
    }
    while i < n
        invariant
            n == v@.len(),
            i <= n,
            ds == models_of(v@),
            out@ == seq!['['] + joined_json(ds.take(i as int)),
        decreases n - i,
    {
        proof {
            reveal_strlit(",");
            assert(","@ =~= seq![',']);
            lemma_joined_push(ds.take(i as int), ds[i as int]);
            assert(ds.take(i as int + 1) =~= ds.take(i as int).push(ds[i as int]));
        }
        if i > 0 {
            out.append(",");
        }
        append_artifact(&mut out, &v[i]);
        proof {
            assert(ds[i as int] == v@[i as int]@);
            assert(out@ =~= seq!['['] + joined_json(ds.take(i as int + 1)));
        }
        i += 1;
    }
    proof {
        reveal_strlit("]");
        assert("]"@ =~= seq![']']);
        assert(ds.take(n as int) =~= ds);
    }
    out.append("]");
    proof {
        assert(out@ =~= list_json(models_of(v@)));
    }
    out
}

} // verus!
