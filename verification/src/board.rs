//! Static board metadata: the forty spaces, looked up by position with
//! wrap-around.

use vstd::prelude::*;
use crate::types::BOARD_SIZE;

verus! {

/// What kind of space a board index holds.
#[derive(Debug, Clone, Copy, PartialEq, Eq, Structural)]
pub enum SpaceType {
    Street,
    Railroad,
    Utility,
    Tax,
    Corner,
    Chance,
    CommunityChest,
}

/// Display metadata for one board space.
#[derive(Debug, Clone, Copy, PartialEq, Eq)]
pub struct BoardSpace {
    pub index: i32,
    pub name: &'static str,
    pub type_: SpaceType,
    pub color_group: Option<&'static str>,
    pub price: Option<i32>,
}

/// The board index that `index` wraps to: the unique `j` with
/// `0 <= j < BOARD_SIZE` and `j == index (mod BOARD_SIZE)`.
pub open spec fn wrapped_index(index: int) -> int {
    ((index % (BOARD_SIZE as int)) + (BOARD_SIZE as int)) % (BOARD_SIZE as int)
}

/// The space standing at wrapped position `i` (callers pass
/// `wrapped_index(..)`, which lands in `0..BOARD_SIZE`).
pub open spec fn board_space(i: int) -> BoardSpace {
    let t = if i == 0 || i == 10 || i == 20 || i == 30 {
        SpaceType::Corner
    } else if i == 2 || i == 17 || i == 33 {
        SpaceType::CommunityChest
    } else if i == 7 || i == 22 || i == 36 {
        SpaceType::Chance
    } else if i == 4 || i == 38 {
        SpaceType::Tax
    } else if i == 5 || i == 15 || i == 25 || i == 35 {
        SpaceType::Railroad
    } else if i == 12 || i == 28 {
        SpaceType::Utility
    } else {
        SpaceType::Street
    };
    (BoardSpace {
        index: i as i32,
        name: board_space_name(i),
        type_: t,
        color_group: board_space_color(i),
        price: board_space_price(i),
    })
}

/// Name of the space at wrapped position `i`.
pub open spec fn board_space_name(i: int) -> &'static str {
    if i == 0 { "Salida" }
    else if i == 1 { "Avenida Mediterraneo" }
    else if i == 2 { "Arca Comunal" }
    else if i == 3 { "Avenida Baltica" }
    else if i == 4 { "Impuesto sobre Ingresos" }
    else if i == 5 { "Ferrocarril Reading" }
    else if i == 6 { "Avenida Oriental" }
    else if i == 7 { "Fortuna" }
    else if i == 8 { "Avenida Vermont" }
    else if i == 9 { "Avenida Connecticut" }
    else if i == 10 { "En la Carcel / De Visita" }
    else if i == 11 { "Plaza San Carlos" }
    else if i == 12 { "Compania de Electricidad" }
    else if i == 13 { "Avenida Estados" }
    else if i == 14 { "Avenida Virginia" }
    else if i == 15 { "Ferrocarril Pennsylvania" }
    else if i == 16 { "Plaza St. James" }
    else if i == 17 { "Arca Comunal" }
    else if i == 18 { "Avenida Tennessee" }
    else if i == 19 { "Avenida Nueva York" }
    else if i == 20 { "Parada Libre" }
    else if i == 21 { "Avenida Kentucky" }
    else if i == 22 { "Fortuna" }
    else if i == 23 { "Avenida Indiana" }
    else if i == 24 { "Avenida Illinois" }
    else if i == 25 { "Ferrocarril B. & O." }
    else if i == 26 { "Avenida Atlantico" }
    else if i == 27 { "Avenida Ventnor" }
    else if i == 28 { "Compania de Agua" }
    else if i == 29 { "Jardines Marvin" }
    else if i == 30 { "Vayase a la Carcel" }
    else if i == 31 { "Avenida Pacifico" }
    else if i == 32 { "Avenida Carolina del Norte" }
    else if i == 33 { "Arca Comunal" }
    else if i == 34 { "Avenida Pennsylvania" }
    else if i == 35 { "Ferrocarril Via Rapida" }
    else if i == 36 { "Fortuna" }
    else if i == 37 { "Plaza Park" }
    else if i == 38 { "Impuesto de Lujo" }
    else { "El Muelle" }
}

/// Colour group of the space at wrapped position `i`.
pub open spec fn board_space_color(i: int) -> Option<&'static str> {
    if i == 1 || i == 3 { Some("brown") }
    else if i == 6 || i == 8 || i == 9 { Some("light_blue") }
    else if i == 11 || i == 13 || i == 14 { Some("pink") }
    else if i == 16 || i == 18 || i == 19 { Some("orange") }
    else if i == 21 || i == 23 || i == 24 { Some("red") }
    else if i == 26 || i == 27 || i == 29 { Some("yellow") }
    else if i == 31 || i == 32 || i == 34 { Some("green") }
    else if i == 37 || i == 39 { Some("dark_blue") }
    else { None }
}

/// Display price of the space at wrapped position `i`.
pub open spec fn board_space_price(i: int) -> Option<i32> {
    if i == 1 || i == 3 { Some(60) }
    else if i == 6 || i == 8 { Some(100) }
    else if i == 9 { Some(120) }
    else if i == 4 { Some(200) }
    else if i == 5 || i == 15 || i == 25 || i == 35 { Some(200) }
    else if i == 11 || i == 13 { Some(140) }
    else if i == 12 || i == 28 { Some(150) }
    else if i == 14 { Some(160) }
    else if i == 16 || i == 18 { Some(180) }
    else if i == 19 { Some(200) }
    else if i == 21 || i == 23 { Some(220) }
    else if i == 24 { Some(240) }
    else if i == 26 || i == 27 { Some(260) }
    else if i == 29 { Some(280) }
    else if i == 31 || i == 32 { Some(300) }
    else if i == 34 { Some(320) }
    else if i == 37 { Some(350) }
    else if i == 38 { Some(100) }
    else if i == 39 { Some(400) }
    else { None }
}

/// Looks a board position up, wrapping any (also negative) index onto
/// the board.
pub fn get_space(index: i32) -> (r: BoardSpace)
    ensures
        r == board_space(wrapped_index(index as int)),
{
    let rem: i32 = index % BOARD_SIZE;
    let i: i32 = if rem < 0 { rem + BOARD_SIZE } else { rem };
    assert(i as int == wrapped_index(index as int));
    let t = if i == 0 || i == 10 || i == 20 || i == 30 {
        SpaceType::Corner
    } else if i == 2 || i == 17 || i == 33 {
        SpaceType::CommunityChest
    } else if i == 7 || i == 22 || i == 36 {
        SpaceType::Chance
    } else if i == 4 || i == 38 {
        SpaceType::Tax
    } else if i == 5 || i == 15 || i == 25 || i == 35 {
        SpaceType::Railroad
    } else if i == 12 || i == 28 {
        SpaceType::Utility
    } else {
        SpaceType::Street
    };
    BoardSpace {
        index: i,
        name: space_name(i),
        type_: t,
        color_group: space_color(i),
        price: space_price(i),
    }
}

/// Executable twin of [`board_space_name`].
fn space_name(i: i32) -> (r: &'static str)
    requires
        0 <= i < BOARD_SIZE,
    ensures
        r == board_space_name(i as int),
{
    if i == 0 { "Salida" }
    else if i == 1 { "Avenida Mediterraneo" }
    else if i == 2 { "Arca Comunal" }
    else if i == 3 { "Avenida Baltica" }
    else if i == 4 { "Impuesto sobre Ingresos" }
    else if i == 5 { "Ferrocarril Reading" }
    else if i == 6 { "Avenida Oriental" }
    else if i == 7 { "Fortuna" }
    else if i == 8 { "Avenida Vermont" }
    else if i == 9 { "Avenida Connecticut" }
    else if i == 10 { "En la Carcel / De Visita" }
    else if i == 11 { "Plaza San Carlos" }
    else if i == 12 { "Compania de Electricidad" }
    else if i == 13 { "Avenida Estados" }
    else if i == 14 { "Avenida Virginia" }
    else if i == 15 { "Ferrocarril Pennsylvania" }
    else if i == 16 { "Plaza St. James" }
    else if i == 17 { "Arca Comunal" }
    else if i == 18 { "Avenida Tennessee" }
    else if i == 19 { "Avenida Nueva York" }
    else if i == 20 { "Parada Libre" }
    else if i == 21 { "Avenida Kentucky" }
    else if i == 22 { "Fortuna" }
    else if i == 23 { "Avenida Indiana" }
    else if i == 24 { "Avenida Illinois" }
    else if i == 25 { "Ferrocarril B. & O." }
    else if i == 26 { "Avenida Atlantico" }
    else if i == 27 { "Avenida Ventnor" }
    else if i == 28 { "Compania de Agua" }
    else if i == 29 { "Jardines Marvin" }
    else if i == 30 { "Vayase a la Carcel" }
    else if i == 31 { "Avenida Pacifico" }
    else if i == 32 { "Avenida Carolina del Norte" }
    else if i == 33 { "Arca Comunal" }
    else if i == 34 { "Avenida Pennsylvania" }
    else if i == 35 { "Ferrocarril Via Rapida" }
    else if i == 36 { "Fortuna" }
    else if i == 37 { "Plaza Park" }
    else if i == 38 { "Impuesto de Lujo" }
    else { "El Muelle" }
}

/// Executable twin of [`board_space_color`].
fn space_color(i: i32) -> (r: Option<&'static str>)
    requires
        0 <= i < BOARD_SIZE,
    ensures
        r == board_space_color(i as int),
{
    if i == 1 || i == 3 { Some("brown") }
    else if i == 6 || i == 8 || i == 9 { Some("light_blue") }
    else if i == 11 || i == 13 || i == 14 { Some("pink") }
    else if i == 16 || i == 18 || i == 19 { Some("orange") }
    else if i == 21 || i == 23 || i == 24 { Some("red") }
    else if i == 26 || i == 27 || i == 29 { Some("yellow") }
    else if i == 31 || i == 32 || i == 34 { Some("green") }
    else if i == 37 || i == 39 { Some("dark_blue") }
    else { None }
}

/// Executable twin of [`board_space_price`].
fn space_price(i: i32) -> (r: Option<i32>)
    requires
        0 <= i < BOARD_SIZE,
    ensures
        r == board_space_price(i as int),
{
    if i == 1 || i == 3 { Some(60) }
    else if i == 6 || i == 8 { Some(100) }
    else if i == 9 { Some(120) }
    else if i == 4 { Some(200) }
    else if i == 5 || i == 15 || i == 25 || i == 35 { Some(200) }
    else if i == 11 || i == 13 { Some(140) }
    else if i == 12 || i == 28 { Some(150) }
    else if i == 14 { Some(160) }
    else if i == 16 || i == 18 { Some(180) }
    else if i == 19 { Some(200) }
    else if i == 21 || i == 23 { Some(220) }
    else if i == 24 { Some(240) }
    else if i == 26 || i == 27 { Some(260) }
    else if i == 29 { Some(280) }
    else if i == 31 || i == 32 { Some(300) }
    else if i == 34 { Some(320) }
    else if i == 37 { Some(350) }
    else if i == 38 { Some(100) }
    else if i == 39 { Some(400) }
    else { None }
}

} // verus!
