//! Breakdown of a span of seconds into weeks, days, hours, minutes and
//! seconds, and its human-readable rendering: each non-zero component as
//! `"{n} {unit}"`, singular when the count is 1, joined with `", "`.

use vstd::prelude::*;
use vstd::arithmetic::div_mod::{lemma_fundamental_div_mod, lemma_mod_mod};
use crate::text::{ascii_view, ascii_only, spec_decimal, push_decimal, ascii_string};

verus! {

pub open spec fn spec_weeks(n: int) -> int {
    n / 604800
}

pub open spec fn spec_days(n: int) -> int {
    (n % 604800) / 86400
}

pub open spec fn spec_hours(n: int) -> int {
    (n % 86400) / 3600
}

pub open spec fn spec_minutes(n: int) -> int {
    (n % 3600) / 60
}

pub open spec fn spec_seconds(n: int) -> int {
    n % 60
}

/// Reconstructing a breakdown gives back the seconds it came from: for every
/// non-negative `n`, `604800*weeks + 86400*days + 3600*hours + 60*minutes +
/// seconds` of the decomposition of `n` equals `n`.
pub proof fn lemma_decomposition_roundtrip(n: int)
    requires
        0 <= n,
    ensures
        604800 * spec_weeks(n) + 86400 * spec_days(n) + 3600 * spec_hours(n) + 60 * spec_minutes(
            n,
        ) + spec_seconds(n) == n,
{
    lemma_fundamental_div_mod(n, 604800);
    lemma_mod_mod(n, 86400, 7);
    lemma_fundamental_div_mod(n % 604800, 86400);
    lemma_mod_mod(n, 3600, 24);
    lemma_fundamental_div_mod(n % 86400, 3600);
    lemma_mod_mod(n, 60, 60);
    lemma_fundamental_div_mod(n % 3600, 60);
}

/// One unit of the rendering.
pub enum UnitWord {
    Week,
    Day,
    Hour,
    Minute,
    Second,
}

/// The singular name of a unit.
pub open spec fn spec_unit_chars(u: UnitWord) -> Seq<char> {
    match u {
        UnitWord::Week => seq!['w', 'e', 'e', 'k'],
        UnitWord::Day => seq!['d', 'a', 'y'],
        UnitWord::Hour => seq!['h', 'o', 'u', 'r'],
        UnitWord::Minute => seq!['m', 'i', 'n', 'u', 't', 'e'],
        UnitWord::Second => seq!['s', 'e', 'c', 'o', 'n', 'd'],
    }
}

/// `"{n} {unit}"`, with the unit pluralized unless `n == 1`.
pub open spec fn spec_part(n: int, unit: Seq<char>) -> Seq<char> {
    spec_decimal(n) + seq![' '] + unit + (if n == 1 {
        Seq::<char>::empty()
    } else {
        seq!['s']
    })
}

/// The non-zero components of a breakdown, in rendering order.
pub open spec fn spec_parts(w: int, d: int, h: int, m: int, s: int) -> Seq<Seq<char>> {
    (if w == 0 {
        Seq::<Seq<char>>::empty()
    } else {
        seq![spec_part(w, spec_unit_chars(UnitWord::Week))]
    }) + (if d == 0 {
        Seq::<Seq<char>>::empty()
    } else {
        seq![spec_part(d, spec_unit_chars(UnitWord::Day))]
    }) + (if h == 0 {
        Seq::<Seq<char>>::empty()
    } else {
        seq![spec_part(h, spec_unit_chars(UnitWord::Hour))]
    }) + (if m == 0 {
        Seq::<Seq<char>>::empty()
    } else {
        seq![spec_part(m, spec_unit_chars(UnitWord::Minute))]
    }) + (if s == 0 {
        Seq::<Seq<char>>::empty()
    } else {
        seq![spec_part(s, spec_unit_chars(UnitWord::Second))]
    })
}

/// The given pieces joined with `", "`; empty when there is none.
pub open spec fn spec_join(parts: Seq<Seq<char>>) -> Seq<char>
    decreases parts.len(),
{
    if parts.len() == 0 {
        Seq::<char>::empty()
    } else if parts.len() == 1 {
        parts[0]
    } else {
        parts[0] + seq![',', ' '] + spec_join(parts.drop_first())
    }
}

proof fn lemma_join_push(parts: Seq<Seq<char>>, p: Seq<char>)
    ensures
        spec_join(parts.push(p)) == (if parts.len() == 0 {
            p
        } else {
            spec_join(parts) + seq![',', ' '] + p
        }),
    decreases parts.len(),
{
    if parts.len() == 0 {
        assert(parts.push(p) =~= seq![p]);
        assert(spec_join(seq![p]) == p);
    } else if parts.len() == 1 {
        assert(parts.push(p).drop_first() =~= seq![p]);
        assert(spec_join(seq![p]) == p);
        assert(spec_join(parts.push(p)) == parts[0] + seq![',', ' '] + p);
        assert(spec_join(parts) == parts[0]);
    } else {
        lemma_join_push(parts.drop_first(), p);
        assert(parts.push(p).drop_first() =~= parts.drop_first().push(p));
        assert(spec_join(parts.push(p)) == parts[0] + seq![',', ' '] + spec_join(
            parts.drop_first().push(p),
        ));
        assert(spec_join(parts.drop_first().push(p)) == spec_join(parts.drop_first()) + seq![
            ',',
            ' ',
        ] + p);
        assert(spec_join(parts) == parts[0] + seq![',', ' '] + spec_join(parts.drop_first()));
        assert(spec_join(parts.push(p)) =~= spec_join(parts) + seq![',', ' '] + p);
    }
}

/// A span of seconds broken down into calendar units, weeks first, the
/// remainder cascaded downward.
pub struct QuarterDuration {
    pub weeks: u64,
    pub days: u64,
    pub hours: u64,
    pub minutes: u64,
    pub seconds: u64,
}

impl QuarterDuration {
    /// The components of this breakdown in rendering order, zero ones omitted.
    pub open spec fn spec_view_parts(self) -> Seq<Seq<char>> {
        spec_parts(
            self.weeks as int,
            self.days as int,
            self.hours as int,
            self.minutes as int,
            self.seconds as int,
        )
    }

    /// Decomposes a total count of seconds: weeks first, then the remainder
    /// into days, hours, minutes and seconds.
    pub fn from_seconds(total: u64) -> (r: QuarterDuration)
        ensures
            r.weeks == spec_weeks(total as int),
            r.days == spec_days(total as int),
            r.hours == spec_hours(total as int),
            r.minutes == spec_minutes(total as int),
            r.seconds == spec_seconds(total as int),
            604800 * r.weeks + 86400 * r.days + 3600 * r.hours + 60 * r.minutes + r.seconds
                == total,
    {
        proof {
            lemma_decomposition_roundtrip(total as int);
        }
        QuarterDuration {
            weeks: total / 604800,
            days: (total % 604800) / 86400,
            hours: (total % 86400) / 3600,
            minutes: (total % 3600) / 60,
            seconds: total % 60,
        }
    }

    /// Renders the breakdown: each non-zero component as `"{n} {unit}"`,
    /// singular unit when the count is 1, joined with `", "`. All components
    /// zero gives the empty string.
    pub fn render(&self) -> (r: String)
        ensures
            r@ == spec_join(self.spec_view_parts()),
    {
        let mut out: Vec<u8> = Vec::new();
        let ghost mut parts: Seq<Seq<char>> = Seq::empty();
        let mut any: bool = false;
        if self.weeks != 0 {
            proof {
                lemma_join_push(parts, spec_part(self.weeks as int, spec_unit_chars(UnitWord::Week)));
            }
            append_component(&mut out, any, self.weeks, UnitWord::Week);
            proof {
                parts = parts.push(spec_part(self.weeks as int, spec_unit_chars(UnitWord::Week)));
            }
            any = true;
        }
        if self.days != 0 {
            proof {
                lemma_join_push(parts, spec_part(self.days as int, spec_unit_chars(UnitWord::Day)));
            }
            append_component(&mut out, any, self.days, UnitWord::Day);
            proof {
                parts = parts.push(spec_part(self.days as int, spec_unit_chars(UnitWord::Day)));
            }
            any = true;
        }
        if self.hours != 0 {
            proof {
                lemma_join_push(parts, spec_part(self.hours as int, spec_unit_chars(UnitWord::Hour)));
            }
            append_component(&mut out, any, self.hours, UnitWord::Hour);
            proof {
                parts = parts.push(spec_part(self.hours as int, spec_unit_chars(UnitWord::Hour)));
            }
            any = true;
        }
        if self.minutes != 0 {
            proof {
                lemma_join_push(
                    parts,
                    spec_part(self.minutes as int, spec_unit_chars(UnitWord::Minute)),
                );
            }
            append_component(&mut out, any, self.minutes, UnitWord::Minute);
            proof {
                parts = parts.push(
                    spec_part(self.minutes as int, spec_unit_chars(UnitWord::Minute)),
                );
            }
            any = true;
        }
        if self.seconds != 0 {
            proof {
                lemma_join_push(
                    parts,
                    spec_part(self.seconds as int, spec_unit_chars(UnitWord::Second)),
                );
            }
            append_component(&mut out, any, self.seconds, UnitWord::Second);
            proof {
                parts = parts.push(
                    spec_part(self.seconds as int, spec_unit_chars(UnitWord::Second)),
                );
            }
            any = true;
        }
        proof {
            assert(parts =~= self.spec_view_parts());
        }
        ascii_string(out)
    }
}

/// Appends the plural `s` to a unit name unless the count is 1.
fn push_plural(out: &mut Vec<u8>, n: u64)
    ensures
        ascii_view(final(out)@) == ascii_view(old(out)@) + (if n == 1 {
            Seq::<char>::empty()
        } else {
            seq!['s']
        }),
        ascii_only(old(out)@) ==> ascii_only(final(out)@),
{
    let ghost pre = out@;
    if n != 1 {
        out.push(115);
        proof {
            crate::text::lemma_ascii_view_push(pre, 115);
            assert(ascii_view(out@) =~= ascii_view(pre) + seq!['s']);
        }
    } else {
        proof {
            assert(ascii_view(out@) =~= ascii_view(pre) + Seq::<char>::empty());
        }
    }
}

/// Appends the singular name of a unit.
fn push_unit_word(out: &mut Vec<u8>, unit: UnitWord)
    ensures
        ascii_view(final(out)@) == ascii_view(old(out)@) + spec_unit_chars(unit),
        ascii_only(old(out)@) ==> ascii_only(final(out)@),
{
    match unit {
        UnitWord::Week => {
            out.push(119);
            out.push(101);
            out.push(101);
            out.push(107);
        },
        UnitWord::Day => {
            out.push(100);
            out.push(97);
            out.push(121);
        },
        UnitWord::Hour => {
            out.push(104);
            out.push(111);
            out.push(117);
            out.push(114);
        },
        UnitWord::Minute => {
            out.push(109);
            out.push(105);
            out.push(110);
            out.push(117);
            out.push(116);
            out.push(101);
        },
        UnitWord::Second => {
            out.push(115);
            out.push(101);
            out.push(99);
            out.push(111);
            out.push(110);
            out.push(100);
        },
    }
    proof {
        assert(ascii_view(out@) =~= ascii_view(old(out)@) + spec_unit_chars(unit));
        assert(ascii_only(old(out)@) ==> ascii_only(out@));
    }
}

/// Appends `", "` when something came before, then one rendered component.
fn append_component(out: &mut Vec<u8>, any: bool, n: u64, unit: UnitWord)
    ensures
        ascii_view(final(out)@) == ascii_view(old(out)@) + (if any {
            seq![',', ' ']
        } else {
            Seq::<char>::empty()
        }) + spec_part(n as int, spec_unit_chars(unit)),
        ascii_only(old(out)@) ==> ascii_only(final(out)@),
{
    if any {
        out.push(44);
        out.push(32);
    }
    proof {
        assert(ascii_view(out@) =~= ascii_view(old(out)@) + (if any {
            seq![',', ' ']
        } else {
            Seq::<char>::empty()
        }));
    }
    let ghost before_digits = out@;
    push_decimal(out, n);
    let ghost before_space = out@;
    out.push(32);
    proof {
        crate::text::lemma_ascii_view_push(before_space, 32);
    }
    push_unit_word(out, unit);
    push_plural(out, n);
    proof {
        assert(ascii_view(out@) =~= ascii_view(old(out)@) + (if any {
            seq![',', ' ']
        } else {
            Seq::<char>::empty()
        }) + spec_part(n as int, spec_unit_chars(unit)));
    }
}

} // verus!
