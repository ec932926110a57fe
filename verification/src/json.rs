//! JSON framing of the library's responses. Strings are escaped exactly as
//! the usual compact JSON writers do: quote and backslash get a two-character
//! escape, the five control characters with short names get theirs, every
//! other control character becomes a `\u00..` escape, and everything else is
//! taken verbatim.

use vstd::prelude::*;
use crate::detail::AnimeData;
use crate::search::results_view;
use crate::search::SearchResult;

verus! {

/// The lowercase hexadecimal digit for `n`.
pub open spec fn hex_lo(n: int) -> char {
    if n == 0 {
        '0'
    } else if n == 1 {
        '1'
    } else if n == 2 {
        '2'
    } else if n == 3 {
        '3'
    } else if n == 4 {
        '4'
    } else if n == 5 {
        '5'
    } else if n == 6 {
        '6'
    } else if n == 7 {
        '7'
    } else if n == 8 {
        '8'
    } else if n == 9 {
        '9'
    } else if n == 10 {
        'a'
    } else if n == 11 {
        'b'
    } else if n == 12 {
        'c'
    } else if n == 13 {
        'd'
    } else if n == 14 {
        'e'
    } else {
        'f'
    }
}

/// How one character appears inside a JSON string.
pub open spec fn esc_char(c: char) -> Seq<char> {
    let u = c as u32;
    if c == '"' {
        seq!['\\', '"']
    } else if c == '\\' {
        seq!['\\', '\\']
    } else if u == 8 {
        seq!['\\', 'b']
    } else if u == 9 {
        seq!['\\', 't']
    } else if u == 10 {
        seq!['\\', 'n']
    } else if u == 12 {
        seq!['\\', 'f']
    } else if u == 13 {
        seq!['\\', 'r']
    } else if u < 32 {
        seq!['\\', 'u', '0', '0', hex_lo(u as int / 16), hex_lo(u as int % 16)]
    } else {
        seq![c]
    }
}

/// The escapes of the first `i` characters of `s`, concatenated.
pub open spec fn esc_upto(s: Seq<char>, i: int) -> Seq<char>
    decreases i,
{
    if i <= 0 {
        Seq::empty()
    } else {
        esc_upto(s, i - 1) + esc_char(s[i - 1])
    }
}

/// The body of the JSON string for `s`.
pub open spec fn spec_escape(s: Seq<char>) -> Seq<char> {
    esc_upto(s, s.len() as int)
}

/// The JSON string for `s`, quotes included.
pub open spec fn json_str(s: Seq<char>) -> Seq<char> {
    seq!['"'] + spec_escape(s) + seq!['"']
}

/// The JSON object for one search result.
pub open spec fn item_json(id: Seq<char>) -> Seq<char> {
    "{\"id\":"@ + json_str(id) + "}"@
}

/// The first `i` result objects, comma-separated.
pub open spec fn items_upto(ids: Seq<Seq<char>>, i: int) -> Seq<char>
    decreases i,
{
    if i <= 0 {
        Seq::empty()
    } else if i == 1 {
        item_json(ids[0])
    } else {
        items_upto(ids, i - 1) + seq![','] + item_json(ids[i - 1])
    }
}

/// The JSON body of a search response.
pub open spec fn search_json(ids: Seq<Seq<char>>) -> Seq<char> {
    "{\"results\":["@ + items_upto(ids, ids.len() as int) + "]}"@
}

/// The JSON body of a detail response.
pub open spec fn detail_json(name: Seq<char>, synopsis: Seq<char>, poster: Seq<char>) -> Seq<
    char,
> {
    "{\"name\":"@ + json_str(name) + ",\"synopsis\":"@ + json_str(synopsis) + ",\"poster_image\":"@
        + json_str(poster) + "}"@
}

/// How the first character's escape splits off the front of an escaped body.
proof fn lemma_esc_upto_head(s: Seq<char>, i: int)
    requires
        1 <= i <= s.len(),
    ensures
        esc_upto(s, i) == esc_char(s[0]) + esc_upto(s.skip(1), i - 1),
    decreases i,
{
    if i == 1 {
        assert(esc_upto(s, 1) == esc_upto(s, 0) + esc_char(s[0]));
        assert(Seq::<char>::empty() + esc_char(s[0]) =~= esc_char(s[0]));
        assert(esc_char(s[0]) + esc_upto(s.skip(1), 0) =~= esc_char(s[0]));
    } else {
        lemma_esc_upto_head(s, i - 1);
        assert(s.skip(1)[i - 2] == s[i - 1]);
        assert(esc_upto(s.skip(1), i - 1) == esc_upto(s.skip(1), i - 2) + esc_char(s[i - 1]));
        assert((esc_char(s[0]) + esc_upto(s.skip(1), i - 2)) + esc_char(s[i - 1]) =~= esc_char(
            s[0],
        ) + esc_upto(s.skip(1), i - 1));
    }
}

/// A character's escape, read off the front of a longer text, determines the
/// character and the rest of the text.
proof fn lemma_esc_head_determined(a: char, b: char, t1: Seq<char>, t2: Seq<char>)
    requires
        esc_char(a) + t1 == esc_char(b) + t2,
    ensures
        a == b,
        t1 == t2,
{
    let ea = esc_char(a);
    let eb = esc_char(b);
    let w = ea + t1;
    assert(w[0] == ea[0] && w[0] == eb[0]);
    if ea.len() == 1 && eb.len() == 1 {
        assert(a == b);
    } else if ea.len() == 1 {
        assert(ea[0] == a && a != '\\');
        assert(eb[0] == '\\');
        assert(false);
    } else if eb.len() == 1 {
        assert(eb[0] == b && b != '\\');
        assert(ea[0] == '\\');
        assert(false);
    } else {
        assert(w[1] == ea[1] && w[1] == eb[1]);
        if ea.len() == 2 && eb.len() == 2 {
            assert(a == b);
        } else if ea.len() == 2 {
            assert(eb[1] == 'u');
            assert(ea[1] == '"' || ea[1] == '\\' || ea[1] == 'b' || ea[1] == 't' || ea[1] == 'n'
                || ea[1] == 'f' || ea[1] == 'r');
            assert(false);
        } else if eb.len() == 2 {
            assert(ea[1] == 'u');
            assert(eb[1] == '"' || eb[1] == '\\' || eb[1] == 'b' || eb[1] == 't' || eb[1] == 'n'
                || eb[1] == 'f' || eb[1] == 'r');
            assert(false);
        } else {
            let ua = a as u32;
            let ub = b as u32;
            assert(w[4] == ea[4] && w[4] == eb[4]);
            assert(w[5] == ea[5] && w[5] == eb[5]);
            assert(hex_lo(ua as int / 16) == hex_lo(ub as int / 16));
            assert(hex_lo(ua as int % 16) == hex_lo(ub as int % 16));
            assert(ua as int / 16 == ub as int / 16);
            assert(ua as int % 16 == ub as int % 16);
            assert(ua == ub);
            assert(a == b);
        }
    }
    assert(t1 =~= w.subrange(ea.len() as int, w.len() as int));
    assert(t2 =~= (eb + t2).subrange(eb.len() as int, (eb + t2).len() as int));
    assert(t1 =~= t2);
}

/// Escaping loses nothing: two strings with the same escaped body are the
/// same string. Together with the exact contracts of the JSON writers above,
/// a reader of the written JSON can recover every string field, and with it
/// the whole serialized value, exactly.
pub proof fn lemma_escape_injective(s1: Seq<char>, s2: Seq<char>)
    requires
        spec_escape(s1) == spec_escape(s2),
    ensures
        s1 == s2,
    decreases s1.len(),
{
    if s1.len() == 0 && s2.len() == 0 {
        assert(s1 =~= s2);
    } else if s1.len() == 0 {
        lemma_esc_upto_head(s2, s2.len() as int);
        assert(spec_escape(s2).len() >= esc_char(s2[0]).len());
        assert(false);
    } else if s2.len() == 0 {
        lemma_esc_upto_head(s1, s1.len() as int);
        assert(spec_escape(s1).len() >= esc_char(s1[0]).len());
        assert(false);
    } else {
        lemma_esc_upto_head(s1, s1.len() as int);
        lemma_esc_upto_head(s2, s2.len() as int);
        assert(esc_upto(s1.skip(1), s1.len() - 1) == spec_escape(s1.skip(1)));
        assert(esc_upto(s2.skip(1), s2.len() - 1) == spec_escape(s2.skip(1)));
        lemma_esc_head_determined(
            s1[0],
            s2[0],
            spec_escape(s1.skip(1)),
            spec_escape(s2.skip(1)),
        );
        lemma_escape_injective(s1.skip(1), s2.skip(1));
        assert(s1 =~= s2) by {
            assert forall|i: int| 0 <= i < s1.len() implies s1[i] == s2[i] by {
                if i > 0 {
                    assert(s1[i] == s1.skip(1)[i - 1]);
                    assert(s2[i] == s2.skip(1)[i - 1]);
                }
            }
        }
    }
}

/// The lowercase hexadecimal digit for `n`.
fn hex_lo_digit(n: u32) -> (c: char)
    requires
        n < 16,
    ensures
        c == hex_lo(n as int),
{
    if n == 0 {
        '0'
    } else if n == 1 {
        '1'
    } else if n == 2 {
        '2'
    } else if n == 3 {
        '3'
    } else if n == 4 {
        '4'
    } else if n == 5 {
        '5'
    } else if n == 6 {
        '6'
    } else if n == 7 {
        '7'
    } else if n == 8 {
        '8'
    } else if n == 9 {
        '9'
    } else if n == 10 {
        'a'
    } else if n == 11 {
        'b'
    } else if n == 12 {
        'c'
    } else if n == 13 {
        'd'
    } else if n == 14 {
        'e'
    } else {
        'f'
    }
}

/// Appends the escaped body of `s` to `out`.
fn push_escaped(out: &mut String, s: &str)
    ensures
        final(out)@ == old(out)@ + spec_escape(s@),
{
    let n: usize = s.unicode_len();
    let mut i: usize = 0;
    proof {
        assert(out@ + esc_upto(s@, 0) =~= out@);
    }
    while i < n
        invariant
            0 <= i <= n,
            n == s@.len(),
            out@ == old(out)@ + esc_upto(s@, i as int),
        decreases n - i,
    {
        let ghost before = out@;
        let c = s.get_char(i);
        let u = c as u32;
        if c == '"' {
            out.append("\\\"");
            proof {
                reveal_strlit("\\\"");
                assert("\\\""@ =~= esc_char(c));
            }
        } else if c == '\\' {
            out.append("\\\\");
            proof {
                reveal_strlit("\\\\");
                assert("\\\\"@ =~= esc_char(c));
            }
        } else if u == 8 {
            out.append("\\b");
            proof {
                reveal_strlit("\\b");
                assert("\\b"@ =~= esc_char(c));
            }
        } else if u == 9 {
            out.append("\\t");
            proof {
                reveal_strlit("\\t");
                assert("\\t"@ =~= esc_char(c));
            }
        } else if u == 10 {
            out.append("\\n");
            proof {
                reveal_strlit("\\n");
                assert("\\n"@ =~= esc_char(c));
            }
        } else if u == 12 {
            out.append("\\f");
            proof {
                reveal_strlit("\\f");
                assert("\\f"@ =~= esc_char(c));
            }
        } else if u == 13 {
            out.append("\\r");
            proof {
                reveal_strlit("\\r");
                assert("\\r"@ =~= esc_char(c));
            }
        } else if u < 32 {
            out.append("\\u00");
            let d1 = hex_lo_digit(u / 16);
            crate::text::push_char(out, d1);
            let d2 = hex_lo_digit(u % 16);
            crate::text::push_char(out, d2);
            proof {
                reveal_strlit("\\u00");
                assert(before + "\\u00"@ + seq![d1] + seq![d2] =~= before + esc_char(c));
                assert(out@ =~= before + "\\u00"@ + seq![d1] + seq![d2]);
            }
        } else {
            crate::text::push_char(out, c);
            proof {
                assert(before.push(c) =~= before + esc_char(c));
            }
        }
        proof {
            assert(out@ =~= before + esc_char(s@[i as int]));
            assert(esc_upto(s@, i + 1) == esc_upto(s@, i as int) + esc_char(s@[i as int]));
            assert(old(out)@ + esc_upto(s@, i + 1) =~= (old(out)@ + esc_upto(s@, i as int))
                + esc_char(s@[i as int]));
        }
        i = i + 1;
    }
}

/// Appends the JSON string for `s`, quotes included, to `out`.
fn push_json_str(out: &mut String, s: &str)
    ensures
        final(out)@ == old(out)@ + json_str(s@),
{
    let ghost at_start = out@;
    out.append("\"");
    push_escaped(out, s);
    out.append("\"");
    proof {
        reveal_strlit("\"");
        assert("\""@ =~= seq!['"']);
        assert(out@ =~= at_start + json_str(s@));
    }
}

/// Writes a search response as compact JSON: an object with the one key
/// `results`, holding the result objects in order.
pub fn search_to_json(sr: &SearchResult) -> (r: String)
    ensures
        r@ == search_json(results_view(sr.results@)),
{
    let ghost ids = results_view(sr.results@);
    let mut out = String::new();
    out.append("{\"results\":[");
    let mut i: usize = 0;
    proof {
        assert(ids.len() == sr.results@.len());
        assert(out@ =~= "{\"results\":["@ + items_upto(ids, 0));
    }
    while i < sr.results.len()
        invariant
            0 <= i <= sr.results@.len(),
            ids == results_view(sr.results@),
            ids.len() == sr.results@.len(),
            out@ == "{\"results\":["@ + items_upto(ids, i as int),
        decreases sr.results@.len() - i,
    {
        let ghost before = out@;
        if i > 0 {
            out.append(",");
        }
        out.append("{\"id\":");
        push_json_str(&mut out, sr.results[i].id.as_str());
        out.append("}");
        proof {
            reveal_strlit(",");
            assert(ids[i as int] == sr.results@[i as int].id@);
            if i == 0 {
                assert(items_upto(ids, 1) == item_json(ids[0]));
                assert(out@ =~= "{\"results\":["@ + items_upto(ids, 1));
            } else {
                assert(items_upto(ids, i + 1) == items_upto(ids, i as int) + seq![',']
                    + item_json(ids[i as int]));
                assert(out@ =~= "{\"results\":["@ + items_upto(ids, i + 1));
            }
        }
        i = i + 1;
    }
    out.append("]}");
    proof {
        assert(out@ =~= search_json(ids));
    }
    out
}

/// Writes a detail response as compact JSON: an object with the keys `name`,
/// `synopsis` and `poster_image`, in that order.
pub fn detail_to_json(d: &AnimeData) -> (r: String)
    ensures
        r@ == detail_json(d.name@, d.synopsis@, d.poster_image@),
{
    let mut out = String::new();
    out.append("{\"name\":");
    push_json_str(&mut out, d.name.as_str());
    out.append(",\"synopsis\":");
    push_json_str(&mut out, d.synopsis.as_str());
    out.append(",\"poster_image\":");
    push_json_str(&mut out, d.poster_image.as_str());
    out.append("}");
    proof {
        assert(out@ =~= detail_json(d.name@, d.synopsis@, d.poster_image@));
    }
    out
}

} // verus!

