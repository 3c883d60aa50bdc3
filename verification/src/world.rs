//! What one turn shows of the board: the teams and the objects on the tiles.

use vstd::prelude::*;

verus! {

/// All coordinates of the home bases, coordinates for base 0 are in index 0.
pub const HOME_BASE_COORDINATES: [(u16, u16); 16] = [
    (100, 100),
    (300, 100),
    (500, 100),
    (700, 100),
    (900, 100),
    (900, 300),
    (900, 500),
    (900, 700),
    (900, 900),
    (700, 900),
    (500, 900),
    (300, 900),
    (100, 900),
    (100, 700),
    (100, 500),
    (100, 300),
];

/// Points where ants will navigate to, to lead them to their home base without clashing into
/// an enemy home base.
pub const HOME_BASE_BEACONS: [(u16, u16); 16] = [
    (110, 110),
    (300, 110),
    (500, 110),
    (700, 110),
    (890, 110),
    (890, 300),
    (890, 500),
    (890, 700),
    (890, 890),
    (700, 890),
    (500, 890),
    (300, 890),
    (100, 890),
    (110, 700),
    (110, 500),
    (110, 300),
];

/// What an ant or a tile can hold.
#[derive(Debug, Clone, Copy, PartialEq, Eq, PartialOrd, Ord, Structural)]
pub enum AntCargo {
    Sugar,
    ToxicWaste,
}

/// Trait to get position of objects
pub trait Position {
    /// The position, for contracts.
    spec fn position(&self) -> (u16, u16);

    /// Returns the position
    fn pos(&self) -> (p: (u16, u16))
        ensures
            p == self.position(),
    ;
}

/// Represents a data type that uses an u8 to store two 4 bit values.
#[derive(Debug, Clone, Copy, PartialEq, Eq, Structural)]
pub struct Pair {
    pub upper: u8,
    pub lower: u8,
}

impl Pair {
    /// Both values fit in four bits.
    pub open spec fn wf(self) -> bool {
        self.upper < 16 && self.lower < 16
    }

    /// The two halves of a byte.
    pub open spec fn unpack(byte: u8) -> Pair {
        Pair { upper: byte / 16, lower: byte % 16 }
    }

    /// The byte whose halves the pair holds.
    pub open spec fn pack(self) -> int {
        self.upper * 16 + self.lower
    }

    /// Creates a new pair by parsing the upper 4 and lower 4 bits of the input byte
    pub fn new(byte: u8) -> (pair: Pair)
        ensures
            pair == Pair::unpack(byte),
            pair.wf(),
            pair.pack() == byte,
    {
        assert(byte >> 4 == byte / 16) by (bit_vector);
        assert(byte & 0xf == byte % 16) by (bit_vector);
        Pair { upper: byte >> 4, lower: byte & 0xf }
    }
}

/// Splitting a byte and packing its halves gives the byte back.
pub proof fn lemma_unpack_then_pack(byte: u8)
    ensures
        Pair::unpack(byte).wf(),
        Pair::unpack(byte).pack() == byte,
{
}

/// Packing two four-bit values into a byte and splitting it gives both back.
pub proof fn lemma_pack_then_unpack(pair: Pair)
    requires
        pair.wf(),
    ensures
        0 <= pair.pack() <= u8::MAX,
        Pair::unpack(pair.pack() as u8) == pair,
{
}

/// One entry of the table of objects: an ant, or something that lies on a tile.
#[derive(Debug, Clone, Copy)]
pub struct Object {
    /// Contains object type and team id
    pub b1: Pair,
    /// Contains ant ID and ant health
    pub b2: Pair,
    pub pos: (u16, u16),
}

impl Object {
    /// All four packed values fit in four bits.
    pub open spec fn wf(self) -> bool {
        self.b1.wf() && self.b2.wf()
    }

    /// The lowest bit of the type marks an ant.
    pub open spec fn ant(self) -> bool {
        self.b1.upper % 2 == 1
    }

    /// What the type says of cargo: 2 and 3 stand for sugar, 4 and 5 for toxic waste.
    pub open spec fn cargo(self) -> Option<AntCargo> {
        if self.b1.upper == 2 || self.b1.upper == 3 {
            Some(AntCargo::Sugar)
        } else if self.b1.upper == 4 || self.b1.upper == 5 {
            Some(AntCargo::ToxicWaste)
        } else {
            None
        }
    }

    /// Something that is no ant and holds the given cargo: a piece that lies on a tile.
    pub open spec fn piece_of(self, cargo: AntCargo) -> bool {
        !self.ant() && self.cargo() == Some(cargo)
    }

    /// Returns true if this object is an ant
    pub fn is_ant(&self) -> (r: bool)
        ensures
            r == self.ant(),
    {
        let upper: u8 = self.b1.upper;
        assert(upper & 1 == upper % 2) by (bit_vector);
        (upper & 1) != 0
    }

    /// Returns the cargo the ant is currently carrying or none if no cargo is carried.
    pub fn get_ant_cargo(&self) -> (r: Option<AntCargo>)
        ensures
            r == self.cargo(),
    {
        if self.b1.upper == 2 || self.b1.upper == 3 {
            return Some(AntCargo::Sugar);
        }
        if self.b1.upper == 4 || self.b1.upper == 5 {
            return Some(AntCargo::ToxicWaste);
        }
        None
    }
}

impl Position for Object {
    open spec fn position(&self) -> (u16, u16) {
        self.pos
    }

    fn pos(&self) -> (p: (u16, u16)) {
        self.pos
    }
}

impl Position for &Object {
    open spec fn position(&self) -> (u16, u16) {
        self.pos
    }

    fn pos(&self) -> (p: (u16, u16)) {
        self.pos
    }
}

/// One of the sixteen teams.
#[derive(Debug)]
pub struct Team {
    pub id: i16,
    pub points: u16,
    pub remaining_ants: u16,
    /// 16 characters, one for each byte of the name
    pub team_name: String,
}

/// The state of the world in one round.
#[derive(Debug)]
pub struct Turn {
    /// Team id of client
    pub team_id: i16,
    /// The 16 teams, in the order of their ids
    pub teams: Vec<Team>,
    pub nr_of_objects: u16,
    pub objects: Vec<Object>,
}

impl Turn {
    /// There are sixteen teams, each at the index of its id; the count of objects
    /// is that of the table, and every object holds four-bit values.
    pub open spec fn wf(self) -> bool {
        &&& self.teams@.len() == 16
        &&& forall|i: int| 0 <= i < 16 ==> (#[trigger] self.teams@[i]).id == i
        &&& self.objects@.len() == self.nr_of_objects
        &&& forall|k: int| 0 <= k < self.objects@.len() ==> (#[trigger] self.objects@[k]).wf()
    }

    /// Tells whether the turn is well formed.
    pub fn is_wf(&self) -> (r: bool)
        ensures
            r == self.wf(),
    {
        if self.teams.len() != 16 || self.objects.len() != self.nr_of_objects as usize {
            return false;
        }
        let mut i: usize = 0;
        while i < 16
            invariant
                i <= 16,
                self.teams@.len() == 16,
                forall|j: int| 0 <= j < i ==> (#[trigger] self.teams@[j]).id == j,
            decreases 16 - i,
        {
            if self.teams[i].id != i as i16 {
                return false;
            }
            i += 1;
        }
        let mut k: usize = 0;
        while k < self.objects.len()
            invariant
                k <= self.objects@.len(),
                forall|j: int| 0 <= j < k ==> (#[trigger] self.objects@[j]).wf(),
            decreases self.objects@.len() - k,
        {
            let object: &Object = &self.objects[k];
            if object.b1.upper >= 16 || object.b1.lower >= 16 || object.b2.upper >= 16
                || object.b2.lower >= 16 {
                return false;
            }
            k += 1;
        }
        true
    }

    /// The client's team is one of the sixteen.
    pub open spec fn own_team_known(self) -> bool {
        0 <= self.team_id < 16
    }

    /// The positions of all objects, in the order of the table.
    pub open spec fn positions(self) -> Seq<(u16, u16)> {
        self.objects@.map_values(|o: Object| o.pos)
    }

    /// Returns a vector that contains all positions of objects. This includes ants.
    pub fn object_positions(&self) -> (positions: Vec<(u16, u16)>)
        ensures
            positions@ == self.positions(),
    {
        let mut positions: Vec<(u16, u16)> = Vec::new();
        let mut k: usize = 0;
        while k < self.objects.len()
            invariant
                k <= self.objects@.len(),
                positions@ == self.objects@.take(k as int).map_values(|o: Object| o.pos),
            decreases self.objects@.len() - k,
        {
            positions.push(self.objects[k].pos);
            k += 1;
        }
        positions
    }
}

} // verus!
