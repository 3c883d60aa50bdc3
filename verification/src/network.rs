//! What goes over the wire: the registration of a client, and the bytes of one turn.

use crate::cli::Args;
use crate::error::AntsError;
use crate::utils::{
    bytes_to_string, i16_from_le_bytes, i16_le, latin1, read_to_two_byte_array, u16_from_le_bytes,
    u16_le,
};
use crate::world::{Object, Pair, Team, Turn};
use vstd::pervasive::unreached;
use vstd::prelude::*;
use vstd::utf8::encode_utf8;

verus! {

/// The kind of client that plays.
pub const CLIENT_TYPE: u16 = 1;

/// Most bytes that the name of a team can have.
pub const TEAM_NAME_BYTES: usize = 16;

/// Bytes of one team in a turn: two numbers and the name.
pub const TEAM_BYTES: usize = 20;

/// Bytes of one object in a turn: two packed bytes and the position.
pub const OBJECT_BYTES: usize = 6;

/// Bytes of a turn before its objects: the id of the client's team, 16
/// teams and the count of objects.
pub const HEADER_BYTES: usize = 324;

/// What a client sends first: its kind and the name of its team.
#[derive(Debug)]
pub struct Register {
    pub client_type: u16,
    pub team_name: String,
}

impl Register {
    /// The kind fits in a byte, and the name in 16 bytes.
    pub open spec fn wf(self) -> bool {
        self.client_type <= u8::MAX && encode_utf8(self.team_name@).len() <= TEAM_NAME_BYTES
    }

    /// The 18 bytes that are sent: the kind, a zero, the bytes of the name, and
    /// zeros after a name of less than 16 bytes.
    pub open spec fn bytes(self) -> Seq<u8> {
        let name = encode_utf8(self.team_name@);
        seq![self.client_type as u8, 0u8] + name + Seq::new(
            (TEAM_NAME_BYTES - name.len()) as nat,
            |i: int| 0u8,
        )
    }

    /// The registration of a client under the team name of its settings, which
    /// has at most 16 bytes.
    pub fn new(args: &Args) -> (register: Self)
        requires
            encode_utf8(args.team_name@).len() <= TEAM_NAME_BYTES,
        ensures
            register.client_type == CLIENT_TYPE,
            register.team_name@ == args.team_name@,
            register.wf(),
    {
        Self { client_type: CLIENT_TYPE, team_name: args.team_name.clone() }
    }

    /// The bytes to send.
    pub fn as_bytes(&self) -> (out: [u8; 18])
        requires
            self.wf(),
        ensures
            out@ == self.bytes(),
    {
        let mut out: [u8; 18] = [0u8; 18];
        out[0] = self.client_type as u8;
        let name: &[u8] = self.team_name.as_str().as_bytes();
        let mut i: usize = 0;
        while i < name.len()
            invariant
                i <= name@.len() <= TEAM_NAME_BYTES,
                out@.len() == 18,
                out@[0] == self.client_type as u8,
                out@[1] == 0,
                forall|j: int| 0 <= j < i ==> out@[2 + j] == name@[j],
                forall|j: int| 2 + i <= j < 18 ==> out@[j] == 0,
            decreases name@.len() - i,
        {
            out[2 + i] = name[i];
            i += 1;
        }
        out
    }
}

/// The object that the six bytes from `at` on describe.
pub open spec fn object_at(input: Seq<u8>, at: int) -> Object {
    Object {
        b1: Pair::unpack(input[at]),
        b2: Pair::unpack(input[at + 1]),
        pos: (u16_le(input.subrange(at + 2, at + 4)), u16_le(input.subrange(at + 4, at + 6))),
    }
}

/// The count of objects that the header of a turn gives.
pub open spec fn object_count(input: Seq<u8>) -> int {
    u16_le(input.subrange(HEADER_BYTES - 2, HEADER_BYTES as int)) as int
}

/// The number of bytes that the turn at the start of the input takes, as far
/// as the input shows it: that of the header where the header is not complete, else
/// that of the header and of as many objects as the header counts.
pub open spec fn bytes_needed(input: Seq<u8>) -> int {
    if input.len() < HEADER_BYTES {
        HEADER_BYTES as int
    } else {
        HEADER_BYTES + OBJECT_BYTES * object_count(input)
    }
}

impl Pair {
    /// The pair that the byte at `at` describes.
    fn read(input: &[u8], at: usize) -> (r: Result<Pair, AntsError>)
        ensures
            at < input@.len() ==> r is Ok && r->Ok_0 == Pair::unpack(input@[at as int]),
            at >= input@.len() ==> r is Err && r->Err_0 == AntsError::TruncatedStream,
    {
        if at >= input.len() {
            return Err(AntsError::TruncatedStream);
        }
        Ok(Pair::new(input[at]))
    }
}

impl Object {
    /// Creates a new object by parsing the six bytes that start at `at`.
    ///
    /// Fails where the input holds less than six bytes from there on.
    pub fn new(input: &[u8], at: usize) -> (r: Result<Object, AntsError>)
        ensures
            at + OBJECT_BYTES <= input@.len() ==> r is Ok && r->Ok_0 == object_at(
                input@,
                at as int,
            ) && r->Ok_0.wf(),
            at + OBJECT_BYTES > input@.len() ==> r is Err && r->Err_0
                == AntsError::TruncatedStream,
    {
        if input.len() < OBJECT_BYTES || at > input.len() - OBJECT_BYTES {
            return Err(AntsError::TruncatedStream);
        }
        let b1 = Pair::read(input, at)?;
        let b2 = Pair::read(input, at + 1)?;
        let x = u16_from_le_bytes(read_to_two_byte_array(input, at + 2)?);
        let y = u16_from_le_bytes(read_to_two_byte_array(input, at + 4)?);
        Ok(Self { b1, b2, pos: (x, y) })
    }
}

impl Team {
    /// Whether the team is the one that the 20 bytes from `at` on describe,
    /// with the given id.
    pub open spec fn shows(self, input: Seq<u8>, at: int, id: i16) -> bool {
        &&& self.id == id
        &&& self.points == u16_le(input.subrange(at, at + 2))
        &&& self.remaining_ants == u16_le(input.subrange(at + 2, at + 4))
        &&& self.team_name@ == latin1(input.subrange(at + 4, at + 20))
    }

    /// Creates a new team by parsing the 20 bytes that start at `at`.
    ///
    /// Fails where the input holds less than 20 bytes from there on.
    pub fn new(input: &[u8], at: usize, id: i16) -> (r: Result<Team, AntsError>)
        ensures
            at + TEAM_BYTES <= input@.len() ==> r is Ok && r->Ok_0.shows(input@, at as int, id),
            at + TEAM_BYTES > input@.len() ==> r is Err && r->Err_0
                == AntsError::TruncatedStream,
    {
        if input.len() < TEAM_BYTES || at > input.len() - TEAM_BYTES {
            return Err(AntsError::TruncatedStream);
        }
        let points = u16_from_le_bytes(read_to_two_byte_array(input, at)?);
        let remaining_ants = u16_from_le_bytes(read_to_two_byte_array(input, at + 2)?);
        let team_name = bytes_to_string(input, at + 4)?;
        Ok(Self { id, points, remaining_ants, team_name })
    }
}

impl Turn {
    /// Whether the turn is the one that the bytes describe: the id of the
    /// client's team, the 16 teams in the order of their ids, the count of
    /// objects and the objects themselves.
    pub open spec fn shows(self, input: Seq<u8>) -> bool {
        &&& self.team_id == i16_le(input.subrange(0, 2))
        &&& self.teams@.len() == 16
        &&& forall|i: int|
            0 <= i < 16 ==> (#[trigger] self.teams@[i]).shows(input, 2 + TEAM_BYTES * i, i as i16)
        &&& self.nr_of_objects == object_count(input)
        &&& self.objects@.len() == object_count(input)
        &&& forall|k: int|
            0 <= k < object_count(input) ==> #[trigger] self.objects@[k] == object_at(
                input,
                HEADER_BYTES + OBJECT_BYTES * k,
            )
    }

    /// Creates a new `Turn` object by parsing the bytes at the start of the input.
    /// Bytes that follow the turn are left alone.
    ///
    /// Fails where the input ends before the turn does.
    pub fn new(input: &[u8]) -> (r: Result<Turn, AntsError>)
        ensures
            input@.len() >= bytes_needed(input@) ==> r is Ok && r->Ok_0.shows(input@)
                && r->Ok_0.wf(),
            input@.len() < bytes_needed(input@) ==> r is Err && r->Err_0
                == AntsError::TruncatedStream,
    {
        if input.len() < HEADER_BYTES {
            return Err(AntsError::TruncatedStream);
        }
        // Parse team id
        let team_id: i16 = i16_from_le_bytes(read_to_two_byte_array(input, 0)?);
        // Parse teams
        let mut teams: Vec<Team> = Vec::new();
        let mut id: i16 = 0;
        while id < 16
            invariant
                HEADER_BYTES <= input@.len(),
                0 <= id <= 16,
                teams@.len() == id,
                forall|i: int|
                    0 <= i < id ==> (#[trigger] teams@[i]).shows(
                        input@,
                        2 + TEAM_BYTES * i,
                        i as i16,
                    ),
            decreases 16 - id,
        {
            let team = Team::new(input, 2 + TEAM_BYTES * (id as usize), id)?;
            teams.push(team);
            id += 1;
        }
        // Parse number of objects
        let nr_of_objects: u16 = u16_from_le_bytes(
            read_to_two_byte_array(input, HEADER_BYTES - 2)?,
        );
        if (input.len() - HEADER_BYTES) / OBJECT_BYTES < nr_of_objects as usize {
            return Err(AntsError::TruncatedStream);
        }
        let mut objects: Vec<Object> = Vec::new();
        let mut k: usize = 0;
        while k < nr_of_objects as usize
            invariant
                HEADER_BYTES + OBJECT_BYTES * nr_of_objects <= input@.len() <= usize::MAX,
                k <= nr_of_objects,
                objects@.len() == k,
                forall|j: int|
                    0 <= j < k ==> #[trigger] objects@[j] == object_at(
                        input@,
                        HEADER_BYTES + OBJECT_BYTES * j,
                    ) && objects@[j].wf(),
            decreases nr_of_objects - k,
        {
            let object = Object::new(input, HEADER_BYTES + OBJECT_BYTES * k)?;
            objects.push(object);
            k += 1;
        }
        Ok(Self { team_id, teams, nr_of_objects, objects })
    }
}

/// Returns the number of bytes that the turn at the start of the input takes,
/// as far as the input shows it. A reader that has the header asks for the
/// whole turn by it.
pub fn turn_length(input: &[u8]) -> (needed: usize)
    ensures
        needed == bytes_needed(input@),
{
    if input.len() < HEADER_BYTES {
        return HEADER_BYTES;
    }
    match read_to_two_byte_array(input, HEADER_BYTES - 2) {
        Ok(bytes) => HEADER_BYTES + OBJECT_BYTES * (u16_from_le_bytes(bytes) as usize),
        Err(_) => unreached(),
    }
}

} // verus!
