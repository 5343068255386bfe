//! Validation of SQL identifiers: table, database and tablespace names
//! that the statement builders splice into SQL text.

use vstd::prelude::*;
use vstd::string::StringSliceAdditionalSpecFns;

verus! {

/// Why a name was refused.
#[derive(Debug)]
pub enum NameError {
    TooLong,
    InvalidCharacters { name: String },
}

/// Whether a byte may appear in an identifier.
pub open spec fn ident_byte(b: u8) -> bool {
    (97 <= b <= 122) || (65 <= b <= 90) || (48 <= b <= 57) || b == 95
}

/// Whether a byte may start an identifier: as above, but no digit.
pub open spec fn ident_start_byte(b: u8) -> bool {
    (97 <= b <= 122) || (65 <= b <= 90) || b == 95
}

/// Whether a dot-free segment is one identifier: non-empty, starting with
/// a letter or underscore, continuing with letters, digits or underscores.
pub open spec fn seg_ok(s: Seq<u8>) -> bool {
    &&& s.len() >= 1
    &&& ident_start_byte(s[0])
    &&& forall|i: int| 1 <= i < s.len() ==> ident_byte(#[trigger] s[i])
}

/// Whether no byte of `s` is a dot.
pub open spec fn no_dot(s: Seq<u8>) -> bool {
    forall|i: int| 0 <= i < s.len() ==> #[trigger] s[i] != 46
}

/// The segments of `s` between its dots, in order: one more segment than
/// there are dots.
pub open spec fn split_dots(s: Seq<u8>) -> Seq<Seq<u8>>
    decreases s.len(),
{
    if s.len() == 0 {
        seq![Seq::<u8>::empty()]
    } else if s[0] == 46 {
        seq![Seq::<u8>::empty()] + split_dots(s.skip(1))
    } else {
        let rest = split_dots(s.skip(1));
        seq![seq![s[0]] + rest[0]] + rest.skip(1)
    }
}

/// Splitting yields at least one segment.
pub proof fn lemma_split_len_ge1(s: Seq<u8>)
    ensures
        split_dots(s).len() >= 1,
    decreases s.len(),
{
    if s.len() > 0 {
        lemma_split_len_ge1(s.skip(1));
    }
}

/// A dot-free byte string is its own single segment.
pub proof fn lemma_split_no_dot(s: Seq<u8>)
    requires
        no_dot(s),
    ensures
        split_dots(s) == seq![s],
    decreases s.len(),
{
    if s.len() == 0 {
        assert(split_dots(s) =~~= seq![s]);
    } else {
        assert(no_dot(s.skip(1)));
        lemma_split_no_dot(s.skip(1));
        assert(seq![s[0]] + s.skip(1) =~= s);
        assert(split_dots(s) =~~= seq![s]);
    }
}

/// Splitting at the first dot: the bytes before it are the first segment,
/// the rest split on their own.
pub proof fn lemma_split_at_dot(s: Seq<u8>, p: int)
    requires
        0 <= p < s.len(),
        s[p] == 46,
        no_dot(s.take(p)),
    ensures
        split_dots(s) == seq![s.take(p)] + split_dots(s.skip(p + 1)),
    decreases p,
{
    if p == 0 {
        assert(s.take(0) =~= Seq::<u8>::empty());
        assert(s.skip(1) =~= s.skip(p + 1));
        assert(split_dots(s) =~~= seq![s.take(p)] + split_dots(s.skip(p + 1)));
    } else {
        assert(s.take(p)[0] == s[0]);
        assert(s[0] != 46);
        let t = s.skip(1);
        assert(t[p - 1] == s[p]);
        assert(no_dot(t.take(p - 1))) by {
            assert forall|i: int| 0 <= i < p - 1 implies #[trigger] t.take(p - 1)[i] != 46 by {
                assert(t.take(p - 1)[i] == s.take(p)[i + 1]);
            }
        }
        lemma_split_at_dot(t, p - 1);
        lemma_split_len_ge1(t.skip(p));
        assert(t.take(p - 1) == split_dots(t)[0]);
        assert(seq![s[0]] + t.take(p - 1) =~= s.take(p));
        assert(t.skip(p) =~= s.skip(p + 1));
        assert(split_dots(t).skip(1) =~= split_dots(s.skip(p + 1)));
        assert(split_dots(s) =~~= seq![s.take(p)] + split_dots(s.skip(p + 1)));
    }
}

/// A valid name: at most one dot, every segment shorter than 64 bytes and
/// shaped like an identifier.
pub open spec fn valid_name(s: Seq<u8>) -> bool {
    &&& split_dots(s).len() <= 2
    &&& forall|k: int| 0 <= k < split_dots(s).len() ==> (#[trigger] split_dots(s)[k]).len() < 64
    &&& forall|k: int| 0 <= k < split_dots(s).len() ==> seg_ok(#[trigger] split_dots(s)[k])
}

/// The bytes a name's text encodes to: the byte string the checks run on.
pub open spec fn name_bytes(s: Seq<char>) -> Seq<u8> {
    vstd::utf8::encode_utf8(s)
}

/// What is wrong with a name, if anything.
pub ghost enum NameFault {
    TooLong,
    InvalidChars,
}

/// The fault a name check finds, in the order the checks run: more than
/// one dot, then an over-long segment, then a malformed segment.
pub open spec fn name_fault(s: Seq<u8>) -> Option<NameFault> {
    let parts = split_dots(s);
    if parts.len() > 2 {
        Option::Some(NameFault::InvalidChars)
    } else if exists|k: int| 0 <= k < parts.len() && (#[trigger] parts[k]).len() >= 64 {
        Option::Some(NameFault::TooLong)
    } else if exists|k: int| 0 <= k < parts.len() && !seg_ok(#[trigger] parts[k]) {
        Option::Some(NameFault::InvalidChars)
    } else {
        Option::None
    }
}

/// Whether a returned error is the one the name check finds for `s`,
/// reporting the full text `full`.
pub open spec fn name_error_matches(e: NameError, s: Seq<u8>, full: Seq<char>) -> bool {
    match e {
        NameError::TooLong => name_fault(s) == Option::Some(NameFault::TooLong),
        NameError::InvalidCharacters { name } => name@ == full && name_fault(s)
            == Option::Some(NameFault::InvalidChars),
    }
}

/// Decides whether a byte range of `v` is one identifier.
#[verifier::loop_isolation(false)]
fn check_segment(v: &[u8], from: usize, to: usize) -> (r: bool)
    requires
        from <= to <= v@.len(),
    ensures
        r == seg_ok(v@.subrange(from as int, to as int)),
{
    let ghost seg = v@.subrange(from as int, to as int);
    if from == to {
        return false;
    }
    let b0 = v[from];
    let start_ok = (97 <= b0 && b0 <= 122) || (65 <= b0 && b0 <= 90) || b0 == 95;
    if !start_ok {
        proof {
            assert(seg[0] == v@[from as int]);
        }
        return false;
    }
    let mut i: usize = from + 1;
    while i < to
        invariant
            from + 1 <= i <= to,
            forall|j: int| 1 <= j < i - from ==> ident_byte(#[trigger] seg[j]),
        decreases to - i,
    {
        let b = v[i];
        let ok = (97 <= b && b <= 122) || (65 <= b && b <= 90) || (48 <= b && b <= 57) || b == 95;
        if !ok {
            proof {
                assert(seg[i as int - from as int] == v@[i as int]);
            }
            return false;
        }
        i = i + 1;
    }
    proof {
        assert(seg[0] == v@[from as int]);
    }
    true
}

/// Checks that a name can stand as a SQL identifier: at most one dot, no
/// segment of 64 bytes or more (else `TooLong`), every segment a plain
/// identifier (else `InvalidCharacters`, which also covers a second dot).
#[verifier::loop_isolation(false)]
pub fn is_valid(name: &str) -> (r: Result<(), NameError>)
    ensures
        match r {
            Result::Ok(()) => valid_name(name.spec_bytes()) && name_fault(name.spec_bytes())
                is None,
            Result::Err(e) => name_error_matches(e, name.spec_bytes(), name@),
        },
{
    let bytes: &[u8] = name.as_bytes();
    let ghost s = name.spec_bytes();
    let n = bytes.len();
    let mut first: Option<usize> = Option::None;
    let mut second: Option<usize> = Option::None;
    let mut i: usize = 0;
    while i < n
        invariant
            i <= n,
            n == s.len(),
            bytes@ == s,
            match (first, second) {
                (Option::None, Option::None) => no_dot(s.take(i as int)),
                (Option::Some(p), Option::None) => {
                    &&& p < i
                    &&& s[p as int] == 46
                    &&& no_dot(s.take(p as int))
                    &&& no_dot(s.subrange(p as int + 1, i as int))
                },
                (Option::Some(p), Option::Some(q)) => {
                    &&& p < q < i
                    &&& s[p as int] == 46
                    &&& s[q as int] == 46
                    &&& no_dot(s.take(p as int))
                    &&& no_dot(s.subrange(p as int + 1, q as int))
                },
                (Option::None, Option::Some(_)) => false,
            },
        decreases n - i,
    {
        if bytes[i] == 46 {
            match (first, second) {
                (Option::None, _) => {
                    first = Option::Some(i);
                },
                (Option::Some(_), Option::None) => {
                    second = Option::Some(i);
                },
                (Option::Some(_), Option::Some(_)) => {},
            }
        } else {
            proof {
                match (first, second) {
                    (Option::None, Option::None) => {
                        assert(no_dot(s.take(i as int + 1))) by {
                            assert forall|j: int| 0 <= j < i + 1 implies #[trigger] s.take(
                                i as int + 1,
                            )[j] != 46 by {
                                if j < i {
                                    assert(s.take(i as int)[j] != 46);
                                }
                            }
                        }
                    },
                    (Option::Some(p), Option::None) => {
                        assert(no_dot(s.subrange(p as int + 1, i as int + 1))) by {
                            assert forall|j: int| 0 <= j < i - p implies #[trigger] s.subrange(
                                p as int + 1,
                                i as int + 1,
                            )[j] != 46 by {
                                if j < i - p - 1 {
                                    assert(s.subrange(p as int + 1, i as int)[j] != 46);
                                }
                            }
                        }
                    },
                    _ => {},
                }
            }
        }
        i = i + 1;
    }
    match (first, second) {
        (Option::Some(p), Option::Some(q)) => {
            proof {
                lemma_split_at_dot(s, p as int);
                let rest = s.skip(p as int + 1);
                assert(rest[q as int - p - 1] == s[q as int]);
                assert(no_dot(rest.take(q as int - p - 1))) by {
                    assert forall|j: int| 0 <= j < q - p - 1 implies #[trigger] rest.take(
                        q as int - p - 1,
                    )[j] != 46 by {
                        assert(rest.take(q as int - p - 1)[j] == s.subrange(
                            p as int + 1,
                            q as int,
                        )[j]);
                    }
                }
                lemma_split_at_dot(rest, q as int - p - 1);
                lemma_split_len_ge1(rest.skip(q as int - p));
                assert(split_dots(s).len() > 2);
            }
            Result::Err(NameError::InvalidCharacters { name: name.to_owned() })
        },
        (Option::Some(p), Option::None) => {
            proof {
                assert(s.subrange(p as int + 1, n as int) == s.skip(p as int + 1));
                lemma_split_at_dot(s, p as int);
                lemma_split_no_dot(s.skip(p as int + 1));
                assert(split_dots(s) =~~= seq![s.take(p as int), s.skip(p as int + 1)]);
            }
            let ghost parts = split_dots(s);
            if p >= 64 || n - (p + 1) >= 64 {
                proof {
                    if p >= 64 {
                        assert(parts[0].len() >= 64);
                    } else {
                        assert(parts[1].len() >= 64);
                    }
                }
                return Result::Err(NameError::TooLong);
            }
            let ok0 = check_segment(bytes, 0, p);
            let ok1 = check_segment(bytes, p + 1, n);
            proof {
                assert(bytes@.subrange(0, p as int) == s.take(p as int));
                assert(bytes@.subrange(p as int + 1, n as int) == s.skip(p as int + 1));
            }
            if ok0 && ok1 {
                proof {
                    assert forall|k: int| 0 <= k < parts.len() implies seg_ok(
                        #[trigger] parts[k],
                    ) && parts[k].len() < 64 by {
                        if k == 0 {
                        } else {
                            assert(parts[1] == s.skip(p as int + 1));
                        }
                    }
                }
                Result::Ok(())
            } else {
                proof {
                    if !ok0 {
                        assert(!seg_ok(parts[0]));
                    } else {
                        assert(!seg_ok(parts[1]));
                    }
                    assert forall|k: int| 0 <= k < parts.len() implies (
                    #[trigger] parts[k]).len() < 64 by {
                        if k == 0 {
                        } else {
                            assert(parts[1] == s.skip(p as int + 1));
                        }
                    }
                }
                Result::Err(NameError::InvalidCharacters { name: name.to_owned() })
            }
        },
        (Option::None, _) => {
            proof {
                assert(s.take(n as int) == s);
                lemma_split_no_dot(s);
            }
            let ghost parts = split_dots(s);
            if n >= 64 {
                proof {
                    assert(parts[0].len() >= 64);
                }
                return Result::Err(NameError::TooLong);
            }
            let ok = check_segment(bytes, 0, n);
            proof {
                assert(bytes@.subrange(0, n as int) == s);
            }
            if ok {
                proof {
                    assert(parts.len() == 1);
                    assert forall|k: int| 0 <= k < parts.len() implies seg_ok(
                        #[trigger] parts[k],
                    ) && parts[k].len() < 64 by {
                        assert(parts[0] == s);
                    }
                }
                Result::Ok(())
            } else {
                proof {
                    assert(!seg_ok(parts[0]));
                    assert forall|k: int| 0 <= k < parts.len() implies (
                    #[trigger] parts[k]).len() < 64 by {
                        assert(parts[0] == s);
                    }
                }
                Result::Err(NameError::InvalidCharacters { name: name.to_owned() })
            }
        },
    }
}

} // verus!
