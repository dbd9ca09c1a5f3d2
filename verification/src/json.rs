//! JSON string literals: escaping of quote, backslash and every control
//! character, with the result pinned to a spec function. The bootstrap
//! record of a chunk embeds paths and module ids this way.

use vstd::prelude::*;
use crate::hash::hex_char;
use crate::text::push_char_from;

verus! {

/// The escape of a single character inside a JSON string literal: the
/// short escapes for quote, backslash, newline, carriage return and tab,
/// a `\u00XX` escape for every other control character, and the
/// character itself for everything else.
pub open spec fn escaped_char(c: char) -> Seq<char> {
    if c == '"' {
        seq!['\\', '"']
    } else if c == '\\' {
        seq!['\\', '\\']
    } else if c == '\n' {
        seq!['\\', 'n']
    } else if c == '\r' {
        seq!['\\', 'r']
    } else if c == '\t' {
        seq!['\\', 't']
    } else if (c as u32) < 0x20 {
        seq!['\\', 'u', '0', '0',
            hex_char(((c as u32) >> 4u32) as int), hex_char(((c as u32) & 0xf) as int)]
    } else {
        seq![c]
    }
}

/// A whole string escaped character by character.
pub open spec fn escaped(s: Seq<char>) -> Seq<char>
    decreases s.len(),
{
    if s.len() == 0 {
        Seq::empty()
    } else {
        escaped_char(s[0]) + escaped(s.drop_first())
    }
}

/// Escaping a string grown by one character on the right.
pub proof fn lemma_escaped_push(s: Seq<char>, c: char)
    ensures
        escaped(s.push(c)) == escaped(s) + escaped_char(c),
    decreases s.len(),
{
    if s.len() == 0 {
        reveal_with_fuel(escaped, 2);
        assert(s.push(c).drop_first() =~= Seq::<char>::empty());
        assert(s.push(c)[0] == c);
        assert(escaped(s.push(c)) =~= escaped(s) + escaped_char(c));
    } else {
        lemma_escaped_push(s.drop_first(), c);
        assert(s.push(c).drop_first() =~= s.drop_first().push(c));
        assert(s.push(c)[0] == s[0]);
        assert(escaped(s.push(c)) =~= escaped(s) + escaped_char(c));
    }
}

/// A JSON string literal: the escaped characters between double quotes.
pub open spec fn json_string(s: Seq<char>) -> Seq<char> {
    seq!['"'] + escaped(s) + seq!['"']
}

/// Renders a string as a JSON string literal.
pub fn json_quote(s: &str) -> (r: String)
    ensures
        r@ == json_string(s@),
{
    let table = "0123456789abcdef";
    proof {
        reveal_strlit("0123456789abcdef");
        assert(forall|n: int| 0 <= n < 16 ==> table@[n] == hex_char(n));
        reveal_strlit("\"");
        reveal_strlit("\\\"");
        reveal_strlit("\\\\");
        reveal_strlit("\\n");
        reveal_strlit("\\r");
        reveal_strlit("\\t");
        reveal_strlit("\\u00");
    }
    let n = s.unicode_len();
    let mut r = String::from_str("\"");
    let mut i: usize = 0;
    while i < n
        invariant
            i <= n,
            n == s@.len(),
            table@.len() == 16,
            forall|m: int| 0 <= m < 16 ==> table@[m] == hex_char(m),
            r@ == seq!['"'] + escaped(s@.subrange(0, i as int)),
        decreases n - i,
    {
        proof {
            reveal_strlit("\"");
            reveal_strlit("\\\"");
            reveal_strlit("\\\\");
            reveal_strlit("\\n");
            reveal_strlit("\\r");
            reveal_strlit("\\t");
            reveal_strlit("\\u00");
        }
        let c = s.get_char(i);
        if c == '"' {
            r.append("\\\"");
        } else if c == '\\' {
            r.append("\\\\");
        } else if c == '\n' {
            r.append("\\n");
        } else if c == '\r' {
            r.append("\\r");
        } else if c == '\t' {
            r.append("\\t");
        } else if (c as u32) < 0x20 {
            r.append("\\u00");
            let cu: u32 = c as u32;
            assert(cu < 0x20 ==> (cu >> 4u32) < 16 && (cu & 0xf) < 16) by (bit_vector);
            let hi: usize = (cu >> 4u32) as usize;
            let lo: usize = (cu & 0xf) as usize;
            let dh = table.substring_char(hi, hi + 1);
            r.append(dh);
            let dl = table.substring_char(lo, lo + 1);
            r.append(dl);
            proof {
                assert(dh@ =~= seq![hex_char(hi as int)]);
                assert(dl@ =~= seq![hex_char(lo as int)]);
            }
        } else {
            push_char_from(&mut r, s, i);
        }
        proof {
            lemma_escaped_push(s@.subrange(0, i as int), s@[i as int]);
            assert(s@.subrange(0, i + 1) =~= s@.subrange(0, i as int).push(s@[i as int]));
            assert(r@ =~= seq!['"'] + escaped(s@.subrange(0, i + 1)));
        }
        i = i + 1;
    }
    r.append("\"");
    proof {
        reveal_strlit("\"");
        assert(s@.subrange(0, n as int) =~= s@);
        assert(r@ =~= json_string(s@));
    }
    r
}

} // verus!
