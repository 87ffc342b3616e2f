//! Escaping of header names and values, so that neither a line feed nor a
//! colon inside them is taken for part of the frame's structure.

use vstd::prelude::*;
use crate::text::{BACKSLASH, COLON, CR, LF};

verus! {

/// Second byte of the escape sequence for a line feed (`n`).
pub const CODE_LF: u8 = 110;

/// Second byte of the escape sequence for a carriage return (`r`).
pub const CODE_CR: u8 = 114;

/// Second byte of the escape sequence for a colon (`c`).
pub const CODE_COLON: u8 = 99;

/// The bytes written for one byte of a header name or value.
pub open spec fn escape_byte(b: u8) -> Seq<u8> {
    if b == LF {
        seq![BACKSLASH, CODE_LF]
    } else if b == CR {
        seq![BACKSLASH, CODE_CR]
    } else if b == COLON {
        seq![BACKSLASH, CODE_COLON]
    } else if b == BACKSLASH {
        seq![BACKSLASH, BACKSLASH]
    } else {
        seq![b]
    }
}

/// The escaped form of a header name or value.
pub open spec fn escape(s: Seq<u8>) -> Seq<u8>
    decreases s.len(),
{
    if s.len() == 0 {
        Seq::empty()
    } else {
        escape_byte(s[0]) + escape(s.skip(1))
    }
}

/// The byte that an escape sequence with second byte `code` stands for.
pub open spec fn unescape_code(code: u8) -> Option<u8> {
    if code == CODE_LF {
        Some(LF)
    } else if code == CODE_CR {
        Some(CR)
    } else if code == CODE_COLON {
        Some(COLON)
    } else if code == BACKSLASH {
        Some(BACKSLASH)
    } else {
        None
    }
}

/// `head` followed by `tail`, when there is a `tail`.
pub open spec fn prepend(head: Seq<u8>, tail: Option<Seq<u8>>) -> Option<Seq<u8>> {
    match tail {
        Some(t) => Some(head + t),
        None => None,
    }
}

/// The bytes that an escaped header name or value stands for; `None` when it
/// holds an undefined escape sequence or ends inside one.
pub open spec fn unescape(s: Seq<u8>) -> Option<Seq<u8>>
    decreases s.len(),
{
    if s.len() == 0 {
        Some(Seq::empty())
    } else if s[0] != BACKSLASH {
        prepend(seq![s[0]], unescape(s.skip(1)))
    } else if s.len() < 2 {
        None
    } else {
        match unescape_code(s[1]) {
            Some(b) => prepend(seq![b], unescape(s.skip(2))),
            None => None,
        }
    }
}

/// Unescaping undoes escaping, whatever follows the escaped part.
pub proof fn lemma_unescape_escape_then(s: Seq<u8>, rest: Seq<u8>)
    ensures
        unescape(escape(s) + rest) == prepend(s, unescape(rest)),
    decreases s.len(),
{
    if s.len() == 0 {
        assert(escape(s) + rest =~= rest);
        match unescape(rest) {
            Some(t) => {
                assert(s + t =~= t);
            },
            None => {},
        }
    } else {
        let b = s[0];
        let tail = escape(s.skip(1)) + rest;
        let whole = escape(s) + rest;
        assert(whole =~= escape_byte(b) + tail);
        lemma_unescape_escape_then(s.skip(1), rest);
        if b == LF || b == CR || b == COLON || b == BACKSLASH {
            assert(whole.skip(2) =~= tail);
        } else {
            assert(whole.skip(1) =~= tail);
        }
        match unescape(rest) {
            Some(t) => {
                assert(seq![b] + (s.skip(1) + t) =~= s + t);
            },
            None => {},
        }
    }
}

/// Unescaping undoes escaping.
pub proof fn lemma_unescape_escape(s: Seq<u8>)
    ensures
        unescape(escape(s)) == Some(s),
{
    lemma_unescape_escape_then(s, Seq::empty());
    assert(escape(s) + Seq::<u8>::empty() =~= escape(s));
    assert(s + Seq::<u8>::empty() =~= s);
}

/// An escaped name or value holds no line feed, carriage return or colon.
pub proof fn lemma_escape_is_clean(s: Seq<u8>)
    ensures
        forall|i: int|
            0 <= i < escape(s).len() ==> {
                &&& #[trigger] escape(s)[i] != LF
                &&& escape(s)[i] != CR
                &&& escape(s)[i] != COLON
            },
    decreases s.len(),
{
    if s.len() > 0 {
        lemma_escape_is_clean(s.skip(1));
        let head = escape_byte(s[0]);
        let tail = escape(s.skip(1));
        assert forall|i: int| 0 <= i < escape(s).len() implies {
            &&& #[trigger] escape(s)[i] != LF
            &&& escape(s)[i] != CR
            &&& escape(s)[i] != COLON
        } by {
            if i >= head.len() {
                assert(escape(s)[i] == tail[i - head.len()]);
            }
        }
    }
}

/// Appends the escaped form of `s` to `out`.
pub fn push_escaped(out: &mut Vec<u8>, s: &[u8])
    ensures
        final(out)@ == old(out)@ + escape(s@),
{
    let mut i: usize = 0;
    assert(s@.skip(0) =~= s@);
    while i < s.len()
        invariant
            0 <= i <= s@.len(),
            out@ + escape(s@.skip(i as int)) == old(out)@ + escape(s@),
        decreases s@.len() - i,
    {
        let b: u8 = s[i];
        let ghost before = out@;
        if b == LF {
            out.push(BACKSLASH);
            out.push(CODE_LF);
        } else if b == CR {
            out.push(BACKSLASH);
            out.push(CODE_CR);
        } else if b == COLON {
            out.push(BACKSLASH);
            out.push(CODE_COLON);
        } else if b == BACKSLASH {
            out.push(BACKSLASH);
            out.push(BACKSLASH);
        } else {
            out.push(b);
        }
        proof {
            let rest = s@.skip(i as int);
            assert(rest.skip(1) =~= s@.skip(i + 1));
            assert(out@ =~= before + escape_byte(b));
            assert(out@ + escape(s@.skip(i + 1)) =~= before + escape(rest));
        }
        i += 1;
    }
    assert(out@ + escape(s@.skip(i as int)) =~= out@);
}

/// The bytes that the escaped text `s` stands for, or `None` when `s` holds
/// an undefined escape sequence or ends inside one.
pub fn unescape_bytes(s: &[u8]) -> (r: Option<Vec<u8>>)
    ensures
        match r {
            Some(v) => unescape(s@) == Some(v@),
            None => unescape(s@) is None,
        },
{
    let mut out: Vec<u8> = Vec::new();
    let mut i: usize = 0;
    assert(s@.skip(0) =~= s@);
    while i < s.len()
        invariant
            0 <= i <= s@.len(),
            unescape(s@) == prepend(out@, unescape(s@.skip(i as int))),
        decreases s@.len() - i,
    {
        let b: u8 = s[i];
        let ghost before = out@;
        let ghost rest = s@.skip(i as int);
        if b != BACKSLASH {
            out.push(b);
            proof {
                assert(rest.skip(1) =~= s@.skip(i + 1));
                match unescape(s@.skip(i + 1)) {
                    Some(t) => {
                        assert(before + (seq![b] + t) =~= out@ + t);
                    },
                    None => {},
                }
            }
            i += 1;
        } else {
            if s.len() - i < 2 {
                return None;
            }
            let code: u8 = s[i + 1];
            let byte: u8 = if code == CODE_LF {
                LF
            } else if code == CODE_CR {
                CR
            } else if code == CODE_COLON {
                COLON
            } else if code == BACKSLASH {
                BACKSLASH
            } else {
                return None;
            };
            out.push(byte);
            proof {
                assert(rest.skip(2) =~= s@.skip(i + 2));
                match unescape(s@.skip(i + 2)) {
                    Some(t) => {
                        assert(before + (seq![byte] + t) =~= out@ + t);
                    },
                    None => {},
                }
            }
            i += 2;
        }
    }
    proof {
        assert(out@ + Seq::<u8>::empty() =~= out@);
    }
    Some(out)
}

} // verus!
