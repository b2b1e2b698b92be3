//! The six faces of the cube and the tables that depend on the face.
//!
//! Two numberings are in use and do not agree. The mesher numbers the
//! faces by axis: `px`, `nx`, `py`, `ny`, `pz`, `nz`, and the surface
//! images of a planet are named in that order. The latitude pass numbers
//! them `front`, `back`, `down`, `up`, `left`, `right`. Each table here
//! belongs to one of the two and says which.

use vstd::prelude::*;
use vstd::string::StringExecFns;
use crate::error::Error;

verus! {

/// The number of faces of a cube.
pub const FACE_COUNT: usize = 6;

/// What one coordinate of a face vertex is taken from: the position along
/// the grid's first or second direction, either of them negated, or half
/// the depth of the face.
#[derive(Clone, Copy, Debug, PartialEq, Eq, Structural)]
pub enum Term {
    X,
    NegX,
    Y,
    NegY,
    HalfDepth,
}

/// The three coordinates of a face vertex, each as the term it is taken
/// from. The normal points along the coordinate that holds
/// [`Term::HalfDepth`].
#[derive(Clone, Copy, Debug, PartialEq, Eq, Structural)]
pub struct FaceAxes {
    pub x: Term,
    pub y: Term,
    pub z: Term,
}

/// What one coordinate of a latitude direction is taken from: the pixel's
/// horizontal or vertical position on the face, either of them negated,
/// or a constant one or minus one.
#[derive(Clone, Copy, Debug, PartialEq, Eq, Structural)]
pub enum LatTerm {
    U,
    NegU,
    V,
    NegV,
    One,
    NegOne,
}

/// The direction from the centre of the cube through a pixel of a face,
/// each coordinate as the term it is taken from.
#[derive(Clone, Copy, Debug, PartialEq, Eq, Structural)]
pub struct LatAxes {
    pub x: LatTerm,
    pub y: LatTerm,
    pub z: LatTerm,
}

/// The mesher's name of face `n`.
pub open spec fn face_name_of(n: int) -> Seq<char> {
    if n == 0 {
        "px"@
    } else if n == 1 {
        "nx"@
    } else if n == 2 {
        "py"@
    } else if n == 3 {
        "ny"@
    } else if n == 4 {
        "pz"@
    } else {
        "nz"@
    }
}

/// The file that holds the surface image of the mesher's face `n`.
pub open spec fn surface_filename_of(n: int) -> Seq<char> {
    if n == 0 {
        "left.png"@
    } else if n == 1 {
        "back.png"@
    } else if n == 2 {
        "up.png"@
    } else if n == 3 {
        "down.png"@
    } else if n == 4 {
        "front.png"@
    } else {
        "right.png"@
    }
}

/// The latitude pass's name of its face `n`.
pub open spec fn cubemap_name_of(n: int) -> Seq<char> {
    if n == 0 {
        "front"@
    } else if n == 1 {
        "back"@
    } else if n == 2 {
        "down"@
    } else if n == 3 {
        "up"@
    } else if n == 4 {
        "left"@
    } else {
        "right"@
    }
}

/// Whether `n` is the first number under which the latitude pass knows a
/// face called `face`.
pub open spec fn cubemap_number_at(face: Seq<char>, n: int) -> bool {
    &&& 0 <= n < 6
    &&& cubemap_name_of(n) == face
    &&& forall|m: int| 0 <= m < n ==> cubemap_name_of(m) != face
}

/// The vertex coordinates of the mesher's face `n`.
pub open spec fn face_axes_of(n: int) -> FaceAxes {
    if n == 0 {
        FaceAxes { x: Term::HalfDepth, y: Term::NegY, z: Term::NegX }
    } else if n == 1 {
        FaceAxes { x: Term::HalfDepth, y: Term::NegY, z: Term::X }
    } else if n == 2 {
        FaceAxes { x: Term::X, y: Term::HalfDepth, z: Term::Y }
    } else if n == 3 {
        FaceAxes { x: Term::X, y: Term::HalfDepth, z: Term::NegY }
    } else if n == 4 {
        FaceAxes { x: Term::X, y: Term::NegY, z: Term::HalfDepth }
    } else {
        FaceAxes { x: Term::NegX, y: Term::NegY, z: Term::HalfDepth }
    }
}

/// Whether `n` is the first number under which the mesher knows a face
/// called `dir`.
pub open spec fn face_number_at(dir: Seq<char>, n: int) -> bool {
    &&& 0 <= n < 6
    &&& face_name_of(n) == dir
    &&& forall|m: int| 0 <= m < n ==> face_name_of(m) != dir
}

/// The number under which the mesher knows the face called `dir`.
pub fn face_index(dir: &str) -> (num: Result<usize, Error>)
    ensures
        match num {
            Ok(n) => face_number_at(dir@, n as int),
            Err(e) => e == Error::InvalidFaceIndex && forall|m: int|
                0 <= m < 6 ==> face_name_of(m) != dir@,
        },
{
    if dir.eq("px") {
        Ok(0)
    } else if dir.eq("nx") {
        Ok(1)
    } else if dir.eq("py") {
        Ok(2)
    } else if dir.eq("ny") {
        Ok(3)
    } else if dir.eq("pz") {
        Ok(4)
    } else if dir.eq("nz") {
        Ok(5)
    } else {
        Err(Error::InvalidFaceIndex)
    }
}

/// The six names of the mesher differ from one another, so each leads
/// back to its number.
pub proof fn lemma_face_round_trip(n: int)
    requires
        0 <= n < 6,
    ensures
        face_number_at(face_name_of(n), n),
{
    reveal_strlit("px");
    reveal_strlit("nx");
    reveal_strlit("py");
    reveal_strlit("ny");
    reveal_strlit("pz");
    reveal_strlit("nz");
    assert forall|m: int| 0 <= m < n implies face_name_of(m) != face_name_of(n) by {
        if face_name_of(m) == face_name_of(n) {
            assert(face_name_of(m)[0] == face_name_of(n)[0]);
            assert(face_name_of(m)[1] == face_name_of(n)[1]);
        }
    }
}

/// The pixel directions of the latitude pass's face `n`.
pub open spec fn latitude_axes_of(n: int) -> LatAxes {
    if n == 0 {
        LatAxes { x: LatTerm::U, y: LatTerm::V, z: LatTerm::NegOne }
    } else if n == 1 {
        LatAxes { x: LatTerm::NegU, y: LatTerm::V, z: LatTerm::One }
    } else if n == 2 {
        LatAxes { x: LatTerm::U, y: LatTerm::NegOne, z: LatTerm::V }
    } else if n == 3 {
        LatAxes { x: LatTerm::U, y: LatTerm::One, z: LatTerm::NegV }
    } else if n == 4 {
        LatAxes { x: LatTerm::NegOne, y: LatTerm::V, z: LatTerm::NegU }
    } else {
        LatAxes { x: LatTerm::One, y: LatTerm::V, z: LatTerm::U }
    }
}

/// The mesher's name of face `n`.
pub fn face_name(n: usize) -> (name: Result<&'static str, Error>)
    ensures
        n >= 6 <==> name == Err::<&str, Error>(Error::InvalidFaceIndex),
        n < 6 ==> name is Ok && name.unwrap()@ == face_name_of(n as int),
{
    match n {
        0 => Ok("px"),
        1 => Ok("nx"),
        2 => Ok("py"),
        3 => Ok("ny"),
        4 => Ok("pz"),
        5 => Ok("nz"),
        _ => Err(Error::InvalidFaceIndex),
    }
}

/// The file that holds the surface image of the mesher's face `n`.
pub fn get_surface_filename(n: u32) -> (name: Result<String, Error>)
    ensures
        n >= 6 <==> name == Err::<String, Error>(Error::InvalidFaceIndex),
        n < 6 ==> name is Ok && name.unwrap()@ == surface_filename_of(n as int),
{
    match n {
        0 => Ok(String::from_str("left.png")),
        1 => Ok(String::from_str("back.png")),
        2 => Ok(String::from_str("up.png")),
        3 => Ok(String::from_str("down.png")),
        4 => Ok(String::from_str("front.png")),
        5 => Ok(String::from_str("right.png")),
        _ => Err(Error::InvalidFaceIndex),
    }
}

/// The vertex coordinates of the mesher's face `n`.
pub fn face_axes(n: usize) -> (axes: Result<FaceAxes, Error>)
    ensures
        n >= 6 <==> axes == Err::<FaceAxes, Error>(Error::InvalidFaceIndex),
        n < 6 ==> axes == Ok::<FaceAxes, Error>(face_axes_of(n as int)),
{
    match n {
        0 => Ok(FaceAxes { x: Term::HalfDepth, y: Term::NegY, z: Term::NegX }),
        1 => Ok(FaceAxes { x: Term::HalfDepth, y: Term::NegY, z: Term::X }),
        2 => Ok(FaceAxes { x: Term::X, y: Term::HalfDepth, z: Term::Y }),
        3 => Ok(FaceAxes { x: Term::X, y: Term::HalfDepth, z: Term::NegY }),
        4 => Ok(FaceAxes { x: Term::X, y: Term::NegY, z: Term::HalfDepth }),
        5 => Ok(FaceAxes { x: Term::NegX, y: Term::NegY, z: Term::HalfDepth }),
        _ => Err(Error::InvalidFaceIndex),
    }
}

/// The latitude pass's name of its face `n`.
pub fn cubemap_name(n: u32) -> (name: Result<&'static str, Error>)
    ensures
        n >= 6 <==> name == Err::<&str, Error>(Error::InvalidFaceIndex),
        n < 6 ==> name is Ok && name.unwrap()@ == cubemap_name_of(n as int),
{
    match n {
        0 => Ok("front"),
        1 => Ok("back"),
        2 => Ok("down"),
        3 => Ok("up"),
        4 => Ok("left"),
        5 => Ok("right"),
        _ => Err(Error::InvalidFaceIndex),
    }
}

/// The number under which the latitude pass knows the face called `face`.
pub fn face_to_num(face: &str) -> (num: Result<u32, Error>)
    ensures
        match num {
            Ok(n) => cubemap_number_at(face@, n as int),
            Err(e) => e == Error::InvalidFaceIndex && forall|m: int|
                0 <= m < 6 ==> cubemap_name_of(m) != face@,
        },
{
    if face.eq("front") {
        Ok(0)
    } else if face.eq("back") {
        Ok(1)
    } else if face.eq("down") {
        Ok(2)
    } else if face.eq("up") {
        Ok(3)
    } else if face.eq("left") {
        Ok(4)
    } else if face.eq("right") {
        Ok(5)
    } else {
        Err(Error::InvalidFaceIndex)
    }
}

/// The pixel directions of the latitude pass's face `n`.
pub fn latitude_axes_for(n: u32) -> (axes: Result<LatAxes, Error>)
    ensures
        n >= 6 <==> axes == Err::<LatAxes, Error>(Error::InvalidFaceIndex),
        n < 6 ==> axes == Ok::<LatAxes, Error>(latitude_axes_of(n as int)),
{
    match n {
        0 => Ok(LatAxes { x: LatTerm::U, y: LatTerm::V, z: LatTerm::NegOne }),
        1 => Ok(LatAxes { x: LatTerm::NegU, y: LatTerm::V, z: LatTerm::One }),
        2 => Ok(LatAxes { x: LatTerm::U, y: LatTerm::NegOne, z: LatTerm::V }),
        3 => Ok(LatAxes { x: LatTerm::U, y: LatTerm::One, z: LatTerm::NegV }),
        4 => Ok(LatAxes { x: LatTerm::NegOne, y: LatTerm::V, z: LatTerm::NegU }),
        5 => Ok(LatAxes { x: LatTerm::One, y: LatTerm::V, z: LatTerm::U }),
        _ => Err(Error::InvalidFaceIndex),
    }
}

/// The pixel directions of the latitude pass's face called `face`.
pub fn latitude_axes(face: &str) -> (axes: Result<LatAxes, Error>)
    ensures
        match axes {
            Ok(a) => exists|n: int| cubemap_number_at(face@, n) && a == latitude_axes_of(n),
            Err(e) => e == Error::InvalidFaceIndex && forall|m: int|
                0 <= m < 6 ==> cubemap_name_of(m) != face@,
        },
{
    match face_to_num(face) {
        Ok(n) => {
            assert(cubemap_number_at(face@, n as int));
            latitude_axes_for(n)
        },
        Err(e) => Err(e),
    }
}

/// The six names of the latitude pass differ from one another.
pub proof fn lemma_cubemap_names_differ(a: int, b: int)
    requires
        0 <= a < 6,
        0 <= b < 6,
        a != b,
    ensures
        cubemap_name_of(a) != cubemap_name_of(b),
{
    reveal_strlit("front");
    reveal_strlit("back");
    reveal_strlit("down");
    reveal_strlit("up");
    reveal_strlit("left");
    reveal_strlit("right");
    if cubemap_name_of(a) == cubemap_name_of(b) {
        assert(cubemap_name_of(a).len() == cubemap_name_of(b).len());
        assert(cubemap_name_of(a)[0] == cubemap_name_of(b)[0]);
    }
}

/// The name of a face of the latitude pass leads back to its number.
pub proof fn lemma_cubemap_round_trip(n: int)
    requires
        0 <= n < 6,
    ensures
        cubemap_number_at(cubemap_name_of(n), n),
{
    assert forall|m: int| 0 <= m < n implies cubemap_name_of(m) != cubemap_name_of(n) by {
        lemma_cubemap_names_differ(m, n);
    }
}

/// On every face exactly one coordinate is held at half the depth: the one
/// along which the face's normal points.
pub proof fn lemma_one_depth_axis(n: int)
    requires
        0 <= n < 6,
    ensures
        ({
            let a = face_axes_of(n);
            let count = (if a.x == Term::HalfDepth {
                1int
            } else {
                0int
            }) + (if a.y == Term::HalfDepth {
                1int
            } else {
                0int
            }) + (if a.z == Term::HalfDepth {
                1int
            } else {
                0int
            });
            count == 1
        }),
{
}

} // verus!
