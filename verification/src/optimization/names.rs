//! Names of the variables of a factor graph.
//!
//! The solver knows a variable by a string. A landmark is named `LM_` and the
//! identifier of its feature, the pose of a keyframe `KF_` and its position in
//! the window, its velocity and biases `vb_` and that position. The pose that
//! is tracked on its own is named `F`.
use vstd::prelude::*;

verus! {

/// A variable of a factor graph.
#[derive(Clone, Copy, Debug, PartialEq, Eq, Structural)]
pub enum VarName {
    /// The position of the landmark behind a feature.
    Landmark(usize),
    /// The pose of the keyframe at a position of the window.
    Pose(usize),
    /// The velocity and the biases of the keyframe at a position of the window.
    VelocityBias(usize),
    /// The pose of the frame that is tracked.
    NewFrame,
}

/// What a name in a solution refers to.
#[derive(Clone, Copy, Debug, PartialEq, Eq, Structural)]
pub enum Target {
    Landmark(usize),
    Pose(i32),
    VelocityBias(i32),
    /// Nothing that the window keeps.
    Ignored,
}

/// Whether `c` is a decimal digit.
pub open spec fn is_digit(c: char) -> bool {
    48 <= c as u32 <= 57
}

/// The digit that stands for `d`.
pub open spec fn digit_char(d: nat) -> char {
    (48 + d) as char
}

/// `n` in decimal notation.
pub open spec fn decimal(n: nat) -> Seq<char>
    decreases n,
{
    if n < 10 {
        seq![digit_char(n)]
    } else {
        decimal(n / 10).push(digit_char(n % 10))
    }
}

/// The number that the digits `s` stand for.
pub open spec fn digits_value(s: Seq<char>) -> nat
    decreases s.len(),
{
    if s.len() == 0 {
        0
    } else {
        digits_value(s.drop_last()) * 10 + (s.last() as u32 - 48) as nat
    }
}

/// Whether `s` is one digit or more, and nothing else.
pub open spec fn all_digits(s: Seq<char>) -> bool {
    s.len() > 0 && forall|i: int| 0 <= i < s.len() ==> is_digit(#[trigger] s[i])
}

/// The number that the digits `s` stand for, if it is at most `max`.
pub open spec fn parse_digits(s: Seq<char>, max: nat) -> Option<nat> {
    if all_digits(s) && digits_value(s) <= max {
        Some(digits_value(s))
    } else {
        None
    }
}

/// `s` read as a number of type `usize`: digits, behind an optional plus sign.
pub open spec fn parse_usize(s: Seq<char>) -> Option<usize> {
    let digits = if s.len() > 0 && s[0] == '+' {
        s.skip(1)
    } else {
        s
    };
    match parse_digits(digits, usize::MAX as nat) {
        Some(n) => Some(n as usize),
        None => None,
    }
}

/// `s` read as a number of type `i32`: digits, behind an optional sign.
pub open spec fn parse_i32(s: Seq<char>) -> Option<i32> {
    if s.len() > 0 && s[0] == '-' {
        match parse_digits(s.skip(1), 0x8000_0000) {
            Some(n) => Some((-n) as i32),
            None => None,
        }
    } else {
        let digits = if s.len() > 0 && s[0] == '+' {
            s.skip(1)
        } else {
            s
        };
        match parse_digits(digits, 0x7fff_ffff) {
            Some(n) => Some(n as i32),
            None => None,
        }
    }
}

/// Whether `name` begins with the three characters.
pub open spec fn has_prefix(name: Seq<char>, a: char, b: char, c: char) -> bool {
    name.len() >= 3 && name[0] == a && name[1] == b && name[2] == c
}

impl VarName {
    /// The string that the solver knows the variable by.
    pub open spec fn spec_name(self) -> Seq<char> {
        match self {
            VarName::Landmark(id) => seq!['L', 'M', '_'] + decimal(id as nat),
            VarName::Pose(k) => seq!['K', 'F', '_'] + decimal(k as nat),
            VarName::VelocityBias(k) => seq!['v', 'b', '_'] + decimal(k as nat),
            VarName::NewFrame => seq!['F'],
        }
    }

    /// The string that the solver knows the variable by.
    pub fn name(&self) -> (r: String)
        ensures
            r@ == self.spec_name(),
    {
        proof {
            reveal_strlit("LM_");
            reveal_strlit("KF_");
            reveal_strlit("vb_");
            reveal_strlit("F");
        }
        let r = match self {
            VarName::Landmark(id) => String::from_str("LM_").concat(to_decimal(*id).as_str()),
            VarName::Pose(k) => String::from_str("KF_").concat(to_decimal(*k).as_str()),
            VarName::VelocityBias(k) => String::from_str("vb_").concat(to_decimal(*k).as_str()),
            VarName::NewFrame => String::from_str("F"),
        };
        assert(r@ =~= self.spec_name());
        r
    }
}

impl Target {
    /// What the name refers to. A name with a known prefix but no number behind
    /// it refers to nothing.
    pub open spec fn spec_decode(name: Seq<char>) -> Target {
        if has_prefix(name, 'L', 'M', '_') {
            match parse_usize(name.skip(3)) {
                Some(id) => Target::Landmark(id),
                None => Target::Ignored,
            }
        } else if has_prefix(name, 'K', 'F', '_') {
            match parse_i32(name.skip(3)) {
                Some(k) => Target::Pose(k),
                None => Target::Ignored,
            }
        } else if has_prefix(name, 'v', 'b', '_') {
            match parse_i32(name.skip(3)) {
                Some(k) => Target::VelocityBias(k),
                None => Target::Ignored,
            }
        } else {
            Target::Ignored
        }
    }

    /// What the name refers to.
    pub fn decode(name: &str) -> (r: Target)
        ensures
            r == Target::spec_decode(name@),
    {
        let n = name.unicode_len();
        if n < 3 {
            return Target::Ignored;
        }
        let a = name.get_char(0);
        let b = name.get_char(1);
        let c = name.get_char(2);
        if a == 'L' && b == 'M' && c == '_' {
            match read_usize(name, 3) {
                Some(id) => Target::Landmark(id),
                None => Target::Ignored,
            }
        } else if a == 'K' && b == 'F' && c == '_' {
            match read_i32(name, 3) {
                Some(k) => Target::Pose(k),
                None => Target::Ignored,
            }
        } else if a == 'v' && b == 'b' && c == '_' {
            match read_i32(name, 3) {
                Some(k) => Target::VelocityBias(k),
                None => Target::Ignored,
            }
        } else {
            Target::Ignored
        }
    }
}

/// The digit that stands for `d`.
fn digit_str(d: usize) -> (r: &'static str)
    requires
        d < 10,
    ensures
        r@ == seq![digit_char(d as nat)],
{
    proof {
        reveal_strlit("0");
        reveal_strlit("1");
        reveal_strlit("2");
        reveal_strlit("3");
        reveal_strlit("4");
        reveal_strlit("5");
        reveal_strlit("6");
        reveal_strlit("7");
        reveal_strlit("8");
        reveal_strlit("9");
    }
    let r: &'static str = match d {
        0 => "0",
        1 => "1",
        2 => "2",
        3 => "3",
        4 => "4",
        5 => "5",
        6 => "6",
        7 => "7",
        8 => "8",
        _ => "9",
    };
    assert(r@ =~= seq![digit_char(d as nat)]);
    r
}

/// `n` in decimal notation.
pub fn to_decimal(n: usize) -> (r: String)
    ensures
        r@ == decimal(n as nat),
    decreases n,
{
    if n < 10 {
        String::from_str(digit_str(n))
    } else {
        let head = to_decimal(n / 10);
        let r = head.concat(digit_str(n % 10));
        assert(r@ =~= decimal(n as nat));
        r
    }
}

/// More digits make no smaller number.
proof fn lemma_digits_grow(s: Seq<char>, k: int)
    requires
        0 <= k <= s.len(),
    ensures
        digits_value(s.take(k)) <= digits_value(s),
    decreases s.len() - k,
{
    if k < s.len() {
        lemma_digits_grow(s, k + 1);
        assert(s.take(k + 1).drop_last() =~= s.take(k));
    } else {
        assert(s.take(k) =~= s);
    }
}

/// The number at the end of `s`, from position `start` on, if it is at most
/// `max`.
fn read_digits(s: &str, start: usize, max: usize) -> (r: Option<usize>)
    requires
        start <= s@.len(),
    ensures
        match r {
            Some(n) => parse_digits(s@.skip(start as int), max as nat) == Some(n as nat),
            None => parse_digits(s@.skip(start as int), max as nat) is None,
        },
{
    let n = s.unicode_len();
    let ghost t = s@.skip(start as int);
    if start == n {
        return None;
    }
    let mut i: usize = start;
    let mut acc: usize = 0;
    assert(t.take(0) =~= Seq::<char>::empty());
    while i < n
        invariant
            start <= i <= n,
            n == s@.len(),
            t == s@.skip(start as int),
            acc == digits_value(t.take(i - start)),
            acc <= max,
            forall|j: int| 0 <= j < i - start ==> is_digit(#[trigger] t[j]),
        decreases n - i,
    {
        let c = s.get_char(i);
        assert(t[i - start] == c);
        if c < '0' || '9' < c {
            assert(!is_digit(t[i - start]));
            return None;
        }
        let d: usize = (c as u32 - 48) as usize;
        proof {
            assert(t.take(i - start + 1).drop_last() =~= t.take(i - start));
            lemma_digits_grow(t, i - start + 1);
        }
        if d > max || acc > (max - d) / 10 {
            return None;
        }
        acc = acc * 10 + d;
        i += 1;
    }
    assert(t.take(i - start) =~= t);
    Some(acc)
}

/// The number of type `usize` at the end of `s`, from position `start` on.
fn read_usize(s: &str, start: usize) -> (r: Option<usize>)
    requires
        start <= s@.len(),
    ensures
        r == parse_usize(s@.skip(start as int)),
{
    let n = s.unicode_len();
    if start < n && s.get_char(start) == '+' {
        assert(s@.skip(start as int).skip(1) =~= s@.skip(start + 1));
        read_digits(s, start + 1, usize::MAX)
    } else {
        read_digits(s, start, usize::MAX)
    }
}

/// The number of type `i32` at the end of `s`, from position `start` on.
fn read_i32(s: &str, start: usize) -> (r: Option<i32>)
    requires
        start <= s@.len(),
    ensures
        r == parse_i32(s@.skip(start as int)),
{
    let n = s.unicode_len();
    if start < n && s.get_char(start) == '-' {
        assert(s@.skip(start as int).skip(1) =~= s@.skip(start + 1));
        match read_digits(s, start + 1, 0x8000_0000) {
            Some(v) => Some((-(v as i64)) as i32),
            None => None,
        }
    } else {
        let from = if start < n && s.get_char(start) == '+' {
            assert(s@.skip(start as int).skip(1) =~= s@.skip(start + 1));
            start + 1
        } else {
            start
        };
        match read_digits(s, from, 0x7fff_ffff) {
            Some(v) => Some(v as i32),
            None => None,
        }
    }
}

/// Reading the decimal notation of a number gives the number back.
pub proof fn decimal_round_trip(n: nat)
    ensures
        all_digits(decimal(n)),
        digits_value(decimal(n)) == n,
    decreases n,
{
    reveal_with_fuel(digits_value, 2);
    if n < 10 {
        assert(decimal(n).drop_last() =~= Seq::<char>::empty());
    } else {
        decimal_round_trip(n / 10);
        assert(decimal(n).drop_last() =~= decimal(n / 10));
    }
}

/// A name that was made for a variable refers to that variable: to its landmark,
/// or to its position in the window as far as an `i32` counts.
pub proof fn name_round_trip(v: VarName)
    ensures
        Target::spec_decode(v.spec_name()) == (match v {
            VarName::Landmark(id) => Target::Landmark(id),
            VarName::Pose(k) => if k <= i32::MAX {
                Target::Pose(k as i32)
            } else {
                Target::Ignored
            },
            VarName::VelocityBias(k) => if k <= i32::MAX {
                Target::VelocityBias(k as i32)
            } else {
                Target::Ignored
            },
            VarName::NewFrame => Target::Ignored,
        }),
{
    let name = v.spec_name();
    match v {
        VarName::Landmark(id) => {
            decimal_round_trip(id as nat);
            assert(name.skip(3) =~= decimal(id as nat));
            assert(is_digit(decimal(id as nat)[0]));
        },
        VarName::Pose(k) => {
            decimal_round_trip(k as nat);
            assert(name.skip(3) =~= decimal(k as nat));
            assert(is_digit(decimal(k as nat)[0]));
        },
        VarName::VelocityBias(k) => {
            decimal_round_trip(k as nat);
            assert(name.skip(3) =~= decimal(k as nat));
            assert(is_digit(decimal(k as nat)[0]));
        },
        VarName::NewFrame => {},
    }
}

/// Two variables never share a name.
pub proof fn names_are_distinct(a: VarName, b: VarName)
    requires
        a != b,
    ensures
        a.spec_name() != b.spec_name(),
{
    if a.spec_name() == b.spec_name() {
        let name = a.spec_name();
        match a {
            VarName::Landmark(n) => {
                decimal_round_trip(n as nat);
                assert(name.skip(3) =~= decimal(n as nat));
            },
            VarName::Pose(n) => {
                decimal_round_trip(n as nat);
                assert(name.skip(3) =~= decimal(n as nat));
            },
            VarName::VelocityBias(n) => {
                decimal_round_trip(n as nat);
                assert(name.skip(3) =~= decimal(n as nat));
            },
            VarName::NewFrame => {},
        }
        match b {
            VarName::Landmark(n) => {
                decimal_round_trip(n as nat);
                assert(name.skip(3) =~= decimal(n as nat));
                assert(name[0] == 'L');
            },
            VarName::Pose(n) => {
                decimal_round_trip(n as nat);
                assert(name.skip(3) =~= decimal(n as nat));
                assert(name[0] == 'K');
            },
            VarName::VelocityBias(n) => {
                decimal_round_trip(n as nat);
                assert(name.skip(3) =~= decimal(n as nat));
                assert(name[0] == 'v');
            },
            VarName::NewFrame => {
                assert(name[0] == 'F');
            },
        }
        match a {
            VarName::Landmark(_) => assert(name[0] == 'L'),
            VarName::Pose(_) => assert(name[0] == 'K'),
            VarName::VelocityBias(_) => assert(name[0] == 'v'),
            VarName::NewFrame => assert(name[0] == 'F'),
        }
    }
}

} // verus!
