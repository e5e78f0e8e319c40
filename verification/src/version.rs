//! Lenient semantic versions: candidate strings made of digits and dots,
//! read as up to three numeric components, with a total order. Used to
//! resolve "latest" when a dependency names no version: candidates holding
//! any other character (pre-release or build tags, letters) are never
//! eligible, and a candidate that still fails to parse is silently dropped.

use vstd::prelude::*;

verus! {

/// A parsed version: up to three numeric components; components the
/// candidate string did not give read as zero.
#[derive(Debug, Copy, Clone, PartialEq, Eq, Structural)]
pub struct SimpleVersion {
    pub major: u64,
    pub minor: u64,
    pub patch: u64,
}

/// Total order on versions: componentwise, most significant first.
pub open spec fn version_le(a: SimpleVersion, b: SimpleVersion) -> bool {
    ||| a.major < b.major
    ||| (a.major == b.major && a.minor < b.minor)
    ||| (a.major == b.major && a.minor == b.minor && a.patch <= b.patch)
}

impl SimpleVersion {
    /// Comparison used when picking the maximum published version.
    pub fn le(&self, other: &SimpleVersion) -> (r: bool)
        ensures
            r == version_le(*self, *other),
    {
        if self.major != other.major {
            self.major < other.major
        } else if self.minor != other.minor {
            self.minor < other.minor
        } else {
            self.patch <= other.patch
        }
    }
}

pub open spec fn is_digit_char(c: char) -> bool {
    '0' <= c && c <= '9'
}

/// The characters an eligible candidate version string may hold at all:
/// digits and the dot separator.
pub open spec fn is_version_char(c: char) -> bool {
    is_digit_char(c) || c == '.'
}

pub open spec fn all_version_chars(s: Seq<char>) -> bool {
    forall|i: int| 0 <= i < s.len() ==> is_version_char(#[trigger] s[i])
}

/// A non-empty run of digits.
pub open spec fn is_digits(s: Seq<char>) -> bool {
    s.len() > 0 && forall|i: int| 0 <= i < s.len() ==> is_digit_char(#[trigger] s[i])
}

/// Numeric value of a digit run, most significant digit first.
pub open spec fn digits_val(s: Seq<char>) -> int
    decreases s.len(),
{
    if s.len() <= 0 {
        0
    } else {
        digits_val(s.drop_last()) * 10 + (s.last() as int - '0' as int)
    }
}

/// The dot-separated pieces of a string; a string with no dot is one piece,
/// and every dot closes a piece, so the result never has fewer than one
/// piece and empty pieces are kept.
pub open spec fn split_dots(s: Seq<char>) -> Seq<Seq<char>>
    decreases s.len(),
{
    if s.len() <= 0 {
        seq![Seq::<char>::empty()]
    } else if s[0] == '.' {
        seq![Seq::<char>::empty()] + split_dots(s.drop_first())
    } else {
        let rest = split_dots(s.drop_first());
        seq![seq![s[0]] + rest[0]] + rest.drop_first()
    }
}

proof fn lemma_split_dots_len(s: Seq<char>)
    ensures
        split_dots(s).len() >= 1,
    decreases s.len(),
{
    if s.len() > 0 {
        lemma_split_dots_len(s.drop_first());
    }
}

/// Appending one character either extends the last piece or, for a dot,
/// opens a new empty piece.
proof fn lemma_split_dots_push(s: Seq<char>, c: char)
    ensures
        split_dots(s.push(c)) == (if c == '.' {
            split_dots(s).push(Seq::<char>::empty())
        } else {
            split_dots(s).update(
                split_dots(s).len() - 1,
                split_dots(s).last().push(c),
            )
        }),
    decreases s.len(),
{
    reveal_with_fuel(split_dots, 3);
    lemma_split_dots_len(s);
    let sp = s.push(c);
    if s.len() == 0 {
        assert(sp.drop_first() =~= Seq::<char>::empty());
        if c == '.' {
            assert(split_dots(sp) =~~= split_dots(s).push(Seq::<char>::empty()));
        } else {
            assert(split_dots(sp) =~~= split_dots(s).update(0, split_dots(s).last().push(c)));
        }
    } else {
        assert(sp[0] == s[0]);
        assert(sp.drop_first() =~= s.drop_first().push(c));
        lemma_split_dots_push(s.drop_first(), c);
        lemma_split_dots_len(s.drop_first());
        if c == '.' {
            assert(split_dots(sp) =~~= split_dots(s).push(Seq::<char>::empty()));
        } else {
            assert(split_dots(sp) =~~= split_dots(s).update(
                split_dots(s).len() - 1,
                split_dots(s).last().push(c),
            ));
        }
    }
}

pub open spec fn part_val(parts: Seq<Seq<char>>, i: int) -> int {
    if 0 <= i < parts.len() {
        digits_val(parts[i])
    } else {
        0
    }
}

/// What a candidate version string means: a string of digits and dots that
/// falls into one to three dot-separated non-empty digit runs, each fitting
/// a 64-bit value; anything else does not parse and is dropped from
/// consideration.
pub open spec fn parse_version(s: Seq<char>) -> Option<SimpleVersion> {
    let parts = split_dots(s);
    if all_version_chars(s) && parts.len() <= 3 && (forall|i: int|
        0 <= i < parts.len() ==> is_digits(#[trigger] parts[i]) && digits_val(parts[i])
            <= u64::MAX) {
        Some(
            SimpleVersion {
                major: part_val(parts, 0) as u64,
                minor: part_val(parts, 1) as u64,
                patch: part_val(parts, 2) as u64,
            },
        )
    } else {
        None
    }
}

/// The still open last piece holds digits alone so far.
spec fn open_piece_digits(piece: Seq<char>) -> bool {
    forall|j: int| 0 <= j < piece.len() ==> is_digit_char(#[trigger] piece[j])
}

/// Reads a candidate version string; returns its value exactly when the
/// string is an eligible, parsable version.
pub fn parse_simple_version(s: &str) -> (r: Option<SimpleVersion>)
    ensures
        r == parse_version(s@),
{
    let len = s.unicode_len();
    let mut i: usize = 0;
    let mut dots: usize = 0;
    let mut chars_ok: bool = true;
    let mut cur_len: usize = 0;
    let mut cur_ok: bool = true;
    let mut cur_val: u64 = 0;
    let mut cur_fits: bool = true;
    let mut prev_ok: bool = true;
    let mut v0: u64 = 0;
    let mut v1: u64 = 0;
    let mut v2: u64 = 0;
    proof {
        assert(s@.subrange(0, 0) =~= Seq::<char>::empty());
    }
    while i < len
        invariant
            i <= len,
            len == s@.len(),
            dots <= i,
            cur_len <= i,
            ({
                let parts = split_dots(s@.subrange(0, i as int));
                &&& parts.len() == dots + 1
                &&& chars_ok == all_version_chars(s@.subrange(0, i as int))
                &&& cur_len == parts.last().len()
                &&& cur_ok == open_piece_digits(parts.last())
                &&& (cur_ok && cur_fits ==> cur_val == digits_val(parts.last()) && digits_val(
                    parts.last(),
                ) <= u64::MAX)
                &&& (cur_ok && !cur_fits ==> digits_val(parts.last()) > u64::MAX)
                &&& (prev_ok <==> (forall|j: int|
                    0 <= j < dots ==> is_digits(#[trigger] parts[j]) && digits_val(parts[j])
                        <= u64::MAX))
                &&& (prev_ok && dots >= 1 ==> v0 == digits_val(parts[0]))
                &&& (prev_ok && dots >= 2 ==> v1 == digits_val(parts[1]))
            }),
        decreases len - i,
    {
        let ghost prefix = s@.subrange(0, i as int);
        let ghost parts = split_dots(prefix);
        let c = s.get_char(i);
        proof {
            lemma_split_dots_len(prefix);
            lemma_split_dots_push(prefix, c);
            assert(s@.subrange(0, i + 1) =~= prefix.push(c));
            assert(forall|j: int| 0 <= j < prefix.len() ==> prefix.push(c)[j] == prefix[j]);
            assert(prefix.push(c)[prefix.len() as int] == c);
        }
        let u = c as u32;
        if c == '.' {
            let part_good = cur_ok && cur_len > 0 && cur_fits;
            if dots == 0 {
                v0 = cur_val;
            } else if dots == 1 {
                v1 = cur_val;
            }
            prev_ok = prev_ok && part_good;
            dots = dots + 1;
            cur_len = 0;
            cur_ok = true;
            cur_val = 0;
            cur_fits = true;
            proof {
                let partsp = split_dots(prefix.push(c));
                assert(partsp.last() =~= Seq::<char>::empty());
                assert(forall|j: int| 0 <= j < parts.len() ==> partsp[j] == parts[j]);
                assert(is_version_char(c));
            }
        } else if 48 <= u && u <= 57 {
            let d = (u - 48) as u64;
            proof {
                assert(is_digit_char(c));
                assert(c as int - '0' as int == d);
            }
            if cur_fits {
                if cur_val <= (u64::MAX - d) / 10 {
                    proof {
                        assert(cur_val * 10 + d <= u64::MAX) by (nonlinear_arith)
                            requires
                                cur_val <= (u64::MAX - d) / 10,
                                d <= 9,
                        ;
                    }
                    cur_val = cur_val * 10 + d;
                } else {
                    cur_fits = false;
                    proof {
                        assert(cur_val * 10 + d > u64::MAX) by (nonlinear_arith)
                            requires
                                cur_val > (u64::MAX - d) / 10,
                                d <= 9,
                        ;
                    }
                }
            }
            proof {
                let partsp = split_dots(prefix.push(c));
                assert(partsp.last() == parts.last().push(c));
                assert(partsp.last().drop_last() =~= parts.last());
                assert(partsp.last().last() == c);
                assert(forall|j: int| 0 <= j < parts.len() - 1 ==> partsp[j] == parts[j]);
                assert(digits_val(partsp.last()) == digits_val(parts.last()) * 10 + (c as int
                    - '0' as int));
                assert(open_piece_digits(partsp.last()) == open_piece_digits(parts.last()))
                    by {
                    assert(forall|j: int|
                        0 <= j < parts.last().len() ==> partsp.last()[j] == #[trigger] parts.last()[j]);
                }
                if cur_ok && digits_val(parts.last()) > u64::MAX {
                    assert(digits_val(partsp.last()) > u64::MAX) by (nonlinear_arith)
                        requires
                            digits_val(partsp.last()) == digits_val(parts.last()) * 10 + (
                            c as int - '0' as int),
                            digits_val(parts.last()) > u64::MAX,
                            c as int - '0' as int >= 0,
                    ;
                }
                assert(is_version_char(c));
            }
            cur_len = cur_len + 1;
        } else {
            proof {
                let partsp = split_dots(prefix.push(c));
                assert(partsp.last() == parts.last().push(c));
                assert(forall|j: int| 0 <= j < parts.len() - 1 ==> partsp[j] == parts[j]);
                assert(!is_digit_char(c) && c != '.');
                assert(partsp.last()[partsp.last().len() - 1] == c);
                assert(!is_version_char(c));
            }
            chars_ok = false;
            cur_ok = false;
            cur_len = cur_len + 1;
        }
        i = i + 1;
    }
    proof {
        assert(s@.subrange(0, len as int) =~= s@);
    }
    let last_good = cur_ok && cur_len > 0 && cur_fits;
    if chars_ok && prev_ok && last_good && dots <= 2 {
        let major = if dots == 0 {
            cur_val
        } else {
            v0
        };
        let minor = if dots == 0 {
            0
        } else if dots == 1 {
            cur_val
        } else {
            v1
        };
        let patch = if dots == 2 {
            cur_val
        } else {
            0
        };
        proof {
            let parts = split_dots(s@);
            assert(forall|j: int|
                0 <= j < parts.len() ==> is_digits(#[trigger] parts[j]) && digits_val(parts[j])
                    <= u64::MAX) by {
                assert(parts.last() == parts[dots as int]);
            }
        }
        Some(SimpleVersion { major, minor, patch })
    } else {
        proof {
            let parts = split_dots(s@);
            if chars_ok && prev_ok && dots <= 2 {
                assert(!(is_digits(parts.last()) && digits_val(parts.last()) <= u64::MAX));
                assert(parts.last() == parts[parts.len() - 1]);
            }
        }
        None
    }
}

/// The candidate that "latest" resolution picks out of a list of published
/// version strings: the last candidate whose parsed value no other parsing
/// candidate exceeds; None when no candidate parses.
pub open spec fn latest_of(cands: Seq<Seq<char>>) -> Option<Seq<char>>
    decreases cands.len(),
{
    if cands.len() == 0 {
        None
    } else {
        let prev = latest_of(cands.drop_last());
        match parse_version(cands.last()) {
            Some(v) => match prev {
                Some(p) => if version_le(parse_version(p)->0, v) {
                    Some(cands.last())
                } else {
                    prev
                },
                None => Some(cands.last()),
            },
            None => prev,
        }
    }
}

/// Whatever "latest" picks is one of the candidates and parses.
pub proof fn lemma_latest_parses(cands: Seq<Seq<char>>)
    ensures
        match latest_of(cands) {
            Some(s) => (exists|i: int| 0 <= i < cands.len() && cands[i] == s) && parse_version(
                s,
            ) is Some,
            None => true,
        },
    decreases cands.len(),
{
    if cands.len() > 0 {
        lemma_latest_parses(cands.drop_last());
        if latest_of(cands) == Some(cands.last()) {
            assert(cands[cands.len() - 1] == cands.last());
        } else if latest_of(cands) is Some {
            let s = latest_of(cands)->0;
            let i = choose|i: int| 0 <= i < cands.drop_last().len() && cands.drop_last()[i] == s;
            assert(cands[i] == s);
        }
    }
}

/// Version selection is correct: the pick parses, is a candidate, and no
/// parsing candidate exceeds it; and selection fails exactly when no
/// candidate both passes the character screen and parses.
pub proof fn lemma_latest_is_max(cands: Seq<Seq<char>>)
    ensures
        match latest_of(cands) {
            Some(s) => parse_version(s) is Some && (exists|i: int|
                0 <= i < cands.len() && cands[i] == s) && (forall|i: int|
                0 <= i < cands.len() && parse_version(#[trigger] cands[i]) is Some
                    ==> version_le(parse_version(cands[i])->0, parse_version(s)->0)),
            None => forall|i: int| 0 <= i < cands.len() ==> parse_version(#[trigger] cands[i]) is None,
        },
    decreases cands.len(),
{
    lemma_latest_parses(cands);
    if cands.len() > 0 {
        lemma_latest_is_max(cands.drop_last());
        assert(forall|i: int| 0 <= i < cands.len() - 1 ==> cands[i] == #[trigger] cands.drop_last()[i]);
        assert(cands[cands.len() - 1] == cands.last());
        match latest_of(cands) {
            Some(s) => {
                assert forall|i: int|
                    0 <= i < cands.len() && parse_version(#[trigger] cands[i]) is Some implies version_le(
                    parse_version(cands[i])->0,
                    parse_version(s)->0,
                ) by {
                    let prev = latest_of(cands.drop_last());
                    if i < cands.len() - 1 {
                        assert(cands.drop_last()[i] == cands[i]);
                        assert(parse_version(cands.drop_last()[i]) is Some);
                        match prev {
                            Some(p) => {
                                assert(version_le(
                                    parse_version(cands.drop_last()[i])->0,
                                    parse_version(p)->0,
                                ));
                                if s != p {
                                    assert(latest_of(cands) == Some(cands.last()));
                                    assert(version_le(
                                        parse_version(p)->0,
                                        parse_version(cands.last())->0,
                                    ));
                                    lemma_version_le_trans(
                                        parse_version(cands[i])->0,
                                        parse_version(p)->0,
                                        parse_version(s)->0,
                                    );
                                }
                            },
                            None => {
                                assert(parse_version(cands.drop_last()[i]) is None);
                            },
                        }
                    } else {
                        if s != cands.last() {
                            assert(!version_le(
                                parse_version(s)->0,
                                parse_version(cands.last())->0,
                            ));
                            lemma_version_le_total(
                                parse_version(s)->0,
                                parse_version(cands.last())->0,
                            );
                        }
                    }
                }
            },
            None => {
                assert(parse_version(cands.last()) is None);
                assert forall|i: int| 0 <= i < cands.len() implies parse_version(
                    #[trigger] cands[i],
                ) is None by {
                    if i < cands.len() - 1 {
                        assert(parse_version(cands.drop_last()[i]) is None);
                    }
                }
            },
        }
    }
}

/// The order on versions is transitive.
pub proof fn lemma_version_le_trans(a: SimpleVersion, b: SimpleVersion, c: SimpleVersion)
    ensures
        version_le(a, b) && version_le(b, c) ==> version_le(a, c),
{
}

/// The order on versions is total.
pub proof fn lemma_version_le_total(a: SimpleVersion, b: SimpleVersion)
    ensures
        version_le(a, b) || version_le(b, a),
{
}

/// Picks the registry's latest published version: the maximum eligible
/// candidate, with candidates that are not digits-and-dots or do not parse
/// silently dropped; None when nothing survives.
pub fn get_latest_version(versions: &Vec<String>) -> (r: Option<String>)
    ensures
        match r {
            Some(s) => latest_of(versions.deep_view()) == Some(s@),
            None => latest_of(versions.deep_view()) is None,
        },
{
    let ghost cands = versions.deep_view();
    let mut best: Option<String> = None;
    let mut best_v = SimpleVersion { major: 0, minor: 0, patch: 0 };
    let mut i: usize = 0;
    proof {
        assert(cands.subrange(0, 0) =~= Seq::<Seq<char>>::empty());
    }
    while i < versions.len()
        invariant
            i <= versions.len(),
            cands == versions.deep_view(),
            cands.len() == versions.len(),
            forall|j: int| 0 <= j < cands.len() ==> cands[j] == #[trigger] versions[j]@,
            match best {
                Some(b) => latest_of(cands.subrange(0, i as int)) == Some(b@) && parse_version(
                    b@,
                ) == Some(best_v),
                None => latest_of(cands.subrange(0, i as int)) is None,
            },
        decreases versions.len() - i,
    {
        let ghost prefix = cands.subrange(0, i as int);
        proof {
            assert(cands.subrange(0, i + 1) =~= prefix.push(cands[i as int]));
            assert(prefix.push(cands[i as int]).drop_last() =~= prefix);
        }
        let cand = &versions[i];
        match parse_simple_version(cand.as_str()) {
            Some(v) => {
                let replace = match &best {
                    Some(_) => best_v.le(&v),
                    None => true,
                };
                if replace {
                    best = Some(cand.clone());
                    best_v = v;
                }
            },
            None => {},
        }
        i = i + 1;
    }
    proof {
        assert(cands.subrange(0, versions.len() as int) =~= cands);
    }
    best
}

} // verus!
