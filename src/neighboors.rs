use vstd::prelude::*;

verus! {

/// How far a neighbour counts as being from the centre of its 3x3 block;
/// `Inf` leaves the neighbour out.
#[derive(Debug, Clone, Copy, PartialEq, Eq, Structural)]
pub enum Dist {
    One,
    Sqrt2,
    Inf,
}

/// The nine distances of a 3x3 block, row after row: offsets
/// `(-1,-1) (-1,0) (-1,1) (0,-1) (0,0) (0,1) (1,-1) (1,0) (1,1)`.
#[derive(Debug, Clone)]
pub struct Neighboors([Dist; 9]);

#[derive(Debug, Clone, Copy, PartialEq, Eq, Structural)]
pub enum ParseNeighboorsError {
    InvalidLength,
    InvalidDigit,
}

impl View for Neighboors {
    type V = Seq<Dist>;

    closed spec fn view(&self) -> Seq<Dist> {
        self.0@
    }
}

/// The distance a digit of a code stands for.
pub open spec fn digit_dist(c: char) -> Option<Dist> {
    if c == '0' {
        Some(Dist::Inf)
    } else if c == '1' {
        Some(Dist::Sqrt2)
    } else if c == '2' {
        Some(Dist::One)
    } else {
        None
    }
}

/// The digit that stands for a distance.
pub open spec fn dist_digit(d: Dist) -> char {
    match d {
        Dist::Inf => '0',
        Dist::Sqrt2 => '1',
        Dist::One => '2',
    }
}

/// What a code means: nine characters, each of its digits 0, 1 or 2.
pub open spec fn parse_code(s: Seq<char>) -> Result<Seq<Dist>, ParseNeighboorsError> {
    if s.len() != 9 {
        Err(ParseNeighboorsError::InvalidLength)
    } else if forall|i: int| 0 <= i < 9 ==> (#[trigger] digit_dist(s[i])) is Some {
        Ok(s.map_values(|c: char| digit_dist(c)->Some_0))
    } else {
        Err(ParseNeighboorsError::InvalidDigit)
    }
}

impl Neighboors {
    /// Reads a code of nine digits, one per offset of the block: 0 leaves the
    /// neighbour out, 1 puts it at distance `Sqrt2`, 2 at distance `One`.
    pub fn parse(s: &str) -> (r: Result<Neighboors, ParseNeighboorsError>)
        ensures
            match r {
                Ok(n) => parse_code(s@) == Ok::<Seq<Dist>, ParseNeighboorsError>(n@),
                Err(e) => parse_code(s@) == Err::<Seq<Dist>, ParseNeighboorsError>(e),
            },
    {
        if s.unicode_len() != 9 {
            return Err(ParseNeighboorsError::InvalidLength);
        }
        let mut res: [Dist; 9] = [Dist::Inf; 9];
        let mut i: usize = 0;
        while i < 9
            invariant
                i <= 9,
                s@.len() == 9,
                res@.len() == 9,
                forall|j: int| 0 <= j < i ==> digit_dist(#[trigger] s@[j]) == Some(res@[j]),
            decreases 9 - i,
        {
            let c: char = s.get_char(i);
            let d: Dist = if c == '0' {
                Dist::Inf
            } else if c == '1' {
                Dist::Sqrt2
            } else if c == '2' {
                Dist::One
            } else {
                assert(digit_dist(s@[i as int]) is None);
                return Err(ParseNeighboorsError::InvalidDigit);
            };
            res[i] = d;
            i = i + 1;
        }
        let n = Neighboors(res);
        assert(n@ =~= s@.map_values(|c: char| digit_dist(c)->Some_0));
        Ok(n)
    }

    /// The distance at position `k` of the block.
    pub fn get(&self, k: usize) -> (d: Dist)
        requires
            k < 9,
        ensures
            d == self@[k as int],
    {
        self.0[k]
    }
}

impl std::str::FromStr for Neighboors {
    type Err = ParseNeighboorsError;

    fn from_str(s: &str) -> (r: Result<Neighboors, ParseNeighboorsError>)
        ensures
            match r {
                Ok(n) => parse_code(s@) == Ok::<Seq<Dist>, ParseNeighboorsError>(n@),
                Err(e) => parse_code(s@) == Err::<Seq<Dist>, ParseNeighboorsError>(e),
            },
    {
        Neighboors::parse(s)
    }
}

/// Every code of nine digits, each 0, 1 or 2, is accepted and gives the
/// distance each digit stands for; written back as digits, those distances
/// spell the code again.
pub proof fn lemma_ternary_code_round_trip(s: Seq<char>)
    requires
        s.len() == 9,
        forall|i: int| 0 <= i < 9 ==> s[i] == '0' || s[i] == '1' || s[i] == '2',
    ensures
        parse_code(s) == Ok::<Seq<Dist>, ParseNeighboorsError>(s.map_values(|c: char| digit_dist(c)->Some_0)),
        parse_code(s)->Ok_0.map_values(|d: Dist| dist_digit(d)) == s,
{
    assert forall|i: int| 0 <= i < 9 implies (#[trigger] digit_dist(s[i])) is Some by {
        assert(s[i] == '0' || s[i] == '1' || s[i] == '2');
    }
    let ds = parse_code(s)->Ok_0;
    assert(ds.map_values(|d: Dist| dist_digit(d)) =~= s);
}

/// A code that is accepted has nine characters, and its distances, written
/// back as digits, spell it again.
pub proof fn lemma_accepted_code_round_trip(s: Seq<char>)
    requires
        parse_code(s) is Ok,
    ensures
        s.len() == 9,
        parse_code(s)->Ok_0.map_values(|d: Dist| dist_digit(d)) == s,
{
    assert forall|i: int| 0 <= i < 9 implies s[i] == '0' || s[i] == '1' || s[i] == '2' by {
        assert(digit_dist(s[i]) is Some);
    }
    lemma_ternary_code_round_trip(s);
}

/// A code of any other length is refused for its length. A code of nine
/// characters of which one is not 0, 1 or 2 is refused for its digits.
pub proof fn lemma_other_codes_refused(s: Seq<char>)
    ensures
        s.len() != 9 ==> parse_code(s) == Err::<Seq<Dist>, ParseNeighboorsError>(ParseNeighboorsError::InvalidLength),
        s.len() == 9 && (exists|i: int|
            0 <= i < 9 && s[i] != '0' && s[i] != '1' && s[i] != '2')
            ==> parse_code(s) == Err::<Seq<Dist>, ParseNeighboorsError>(ParseNeighboorsError::InvalidDigit),
{
    if s.len() == 9 && (exists|i: int|
        0 <= i < 9 && s[i] != '0' && s[i] != '1' && s[i] != '2') {
        let i = choose|i: int|
            0 <= i < 9 && s[i] != '0' && s[i] != '1' && s[i] != '2';
        assert(digit_dist(s[i]) is None);
    }
}

} // verus!
