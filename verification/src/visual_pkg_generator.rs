//! The field-of-view query engine: which grid points lie inside a
//! directional circular sector, and the viewer-local snapshot packaged from
//! them. All geometry is exact integer arithmetic; the sector boundary is a
//! fixed-point tangent table with half-degree resolution.

use vstd::prelude::*;

use crate::cell_def::{Cell, CellView};

verus! {

/// A grid point produced by the sector enumeration.
#[derive(Debug, Clone, Copy, PartialEq, Eq, Structural)]
pub struct Point {
    pub x: i32,
    pub y: i32,
}

/// What one snapshot square shows: the critter cell when the position is
/// occupied, the terrain intensity otherwise.
#[derive(Debug)]
pub enum SquareKind {
    CritterCell(Cell),
    WorldCell(u8),
}

/// One snapshot record: a viewer-local coordinate and its content.
#[derive(Debug)]
pub struct Square {
    pub x: i32,
    pub y: i32,
    pub content: SquareKind,
}

/// The mathematical view of `SquareKind`.
pub ghost enum SquareKindView {
    CritterCell(CellView),
    WorldCell(u8),
}

/// The mathematical view of `Square`.
pub ghost struct SquareView {
    pub x: int,
    pub y: int,
    pub content: SquareKindView,
}

impl DeepView for SquareKind {
    type V = SquareKindView;

    open spec fn deep_view(&self) -> SquareKindView {
        match self {
            SquareKind::CritterCell(c) => SquareKindView::CritterCell(c.deep_view()),
            SquareKind::WorldCell(v) => SquareKindView::WorldCell(*v),
        }
    }
}

impl DeepView for Square {
    type V = SquareView;

    open spec fn deep_view(&self) -> SquareView {
        SquareView { x: self.x as int, y: self.y as int, content: self.content.deep_view() }
    }
}

/// The tangent of `k` half-degrees, scaled by 2^20 and rounded to the
/// nearest integer, for `k` in `0..180` (that is, angles up to 89.5
/// degrees). The sector boundary test compares against this table, which
/// pins the cone test down exactly while tracking the real tangent to about
/// one part in a million.
pub open spec fn spec_tan_q20(k: int) -> int {
    spec_tan_q20_hi(k)
}

/// First half of the tangent table.
pub open spec fn spec_tan_q20_lo(k: int) -> int {
    if k == 0 { 0 } else 
    if k == 1 { 9151 } else 
    if k == 2 { 18303 } else 
    if k == 3 { 27458 } else 
    if k == 4 { 36617 } else 
    if k == 5 { 45782 } else 
    if k == 6 { 54954 } else 
    if k == 7 { 64134 } else 
    if k == 8 { 73324 } else 
    if k == 9 { 82525 } else 
    if k == 10 { 91739 } else 
    if k == 11 { 100966 } else 
    if k == 12 { 110210 } else 
    if k == 13 { 119470 } else 
    if k == 14 { 128749 } else 
    if k == 15 { 138048 } else 
    if k == 16 { 147368 } else 
    if k == 17 { 156711 } else 
    if k == 18 { 166078 } else 
    if k == 19 { 175471 } else 
    if k == 20 { 184892 } else 
    if k == 21 { 194342 } else 
    if k == 22 { 203823 } else 
    if k == 23 { 213335 } else 
    if k == 24 { 222882 } else 
    if k == 25 { 232464 } else 
    if k == 26 { 242083 } else 
    if k == 27 { 251741 } else 
    if k == 28 { 261439 } else 
    if k == 29 { 271180 } else 
    if k == 30 { 280965 } else 
    if k == 31 { 290796 } else 
    if k == 32 { 300674 } else 
    if k == 33 { 310602 } else 
    if k == 34 { 320582 } else 
    if k == 35 { 330615 } else 
    if k == 36 { 340703 } else 
    if k == 37 { 350849 } else 
    if k == 38 { 361054 } else 
    if k == 39 { 371320 } else 
    if k == 40 { 381650 } else 
    if k == 41 { 392047 } else 
    if k == 42 { 402511 } else 
    if k == 43 { 413045 } else 
    if k == 44 { 423652 } else 
    if k == 45 { 434334 } else 
    if k == 46 { 445094 } else 
    if k == 47 { 455934 } else 
    if k == 48 { 466856 } else 
    if k == 49 { 477864 } else 
    if k == 50 { 488959 } else 
    if k == 51 { 500145 } else 
    if k == 52 { 511425 } else 
    if k == 53 { 522801 } else 
    if k == 54 { 534276 } else 
    if k == 55 { 545854 } else 
    if k == 56 { 557538 } else 
    if k == 57 { 569330 } else 
    if k == 58 { 581235 } else 
    if k == 59 { 593256 } else 
    if k == 60 { 605396 } else 
    if k == 61 { 617658 } else 
    if k == 62 { 630048 } else 
    if k == 63 { 642568 } else 
    if k == 64 { 655223 } else 
    if k == 65 { 668017 } else 
    if k == 66 { 680953 } else 
    if k == 67 { 694037 } else 
    if k == 68 { 707273 } else 
    if k == 69 { 720666 } else 
    if k == 70 { 734221 } else 
    if k == 71 { 747942 } else 
    if k == 72 { 761835 } else 
    if k == 73 { 775905 } else 
    if k == 74 { 790159 } else 
    if k == 75 { 804601 } else 
    if k == 76 { 819237 } else 
    if k == 77 { 834075 } else 
    if k == 78 { 849120 } else 
    if k == 79 { 864379 } else 
    if k == 80 { 879860 } else 
    if k == 81 { 895569 } else 
    if k == 82 { 911513 } else 
    if k == 83 { 927702 } else 
    if k == 84 { 944142 } else 
    if k == 85 { 960843 } else 
    if k == 86 { 977813 } else 
    if k == 87 { 995061 } else 
    if k == 88 { 1012598 } else 
    if k == 89 { 1030433 } else 
    { 0 }
}

/// Second half of the tangent table; values outside `0..180` are zero.
pub open spec fn spec_tan_q20_hi(k: int) -> int {
    if k < 90 {
        spec_tan_q20_lo(k)
    } else {
    if k == 90 { 1048576 } else 
    if k == 91 { 1067039 } else 
    if k == 92 { 1085832 } else 
    if k == 93 { 1104969 } else 
    if k == 94 { 1124460 } else 
    if k == 95 { 1144320 } else 
    if k == 96 { 1164562 } else 
    if k == 97 { 1185200 } else 
    if k == 98 { 1206249 } else 
    if k == 99 { 1227725 } else 
    if k == 100 { 1249644 } else 
    if k == 101 { 1272024 } else 
    if k == 102 { 1294884 } else 
    if k == 103 { 1318241 } else 
    if k == 104 { 1342116 } else 
    if k == 105 { 1366531 } else 
    if k == 106 { 1391507 } else 
    if k == 107 { 1417069 } else 
    if k == 108 { 1443241 } else 
    if k == 109 { 1470049 } else 
    if k == 110 { 1497522 } else 
    if k == 111 { 1525688 } else 
    if k == 112 { 1554578 } else 
    if k == 113 { 1584226 } else 
    if k == 114 { 1614665 } else 
    if k == 115 { 1645935 } else 
    if k == 116 { 1678072 } else 
    if k == 117 { 1711121 } else 
    if k == 118 { 1745124 } else 
    if k == 119 { 1780129 } else 
    if k == 120 { 1816187 } else 
    if k == 121 { 1853352 } else 
    if k == 122 { 1891681 } else 
    if k == 123 { 1931237 } else 
    if k == 124 { 1972085 } else 
    if k == 125 { 2014296 } else 
    if k == 126 { 2057946 } else 
    if k == 127 { 2103118 } else 
    if k == 128 { 2149899 } else 
    if k == 129 { 2198385 } else 
    if k == 130 { 2248678 } else 
    if k == 131 { 2300890 } else 
    if k == 132 { 2355140 } else 
    if k == 133 { 2411560 } else 
    if k == 134 { 2470290 } else 
    if k == 135 { 2531486 } else 
    if k == 136 { 2595317 } else 
    if k == 137 { 2661965 } else 
    if k == 138 { 2731634 } else 
    if k == 139 { 2804544 } else 
    if k == 140 { 2880939 } else 
    if k == 141 { 2961087 } else 
    if k == 142 { 3045286 } else 
    if k == 143 { 3133863 } else 
    if k == 144 { 3227185 } else 
    if k == 145 { 3325658 } else 
    if k == 146 { 3429738 } else 
    if k == 147 { 3539933 } else 
    if k == 148 { 3656819 } else 
    if k == 149 { 3781043 } else 
    if k == 150 { 3913339 } else 
    if k == 151 { 4054543 } else 
    if k == 152 { 4205609 } else 
    if k == 153 { 4367633 } else 
    if k == 154 { 4541882 } else 
    if k == 155 { 4729821 } else 
    if k == 156 { 4933162 } else 
    if k == 157 { 5153916 } else 
    if k == 158 { 5394456 } else 
    if k == 159 { 5657610 } else 
    if k == 160 { 5946770 } else 
    if k == 161 { 6266043 } else 
    if k == 162 { 6620448 } else 
    if k == 163 { 7016186 } else 
    if k == 164 { 7461006 } else 
    if k == 165 { 7964725 } else 
    if k == 166 { 8539966 } else 
    if k == 167 { 9203233 } else 
    if k == 168 { 9976534 } else 
    if k == 169 { 10889878 } else 
    if k == 170 { 11985279 } else 
    if k == 171 { 13323421 } else 
    if k == 172 { 14995335 } else 
    if k == 173 { 17144066 } else 
    if k == 174 { 20008022 } else 
    if k == 175 { 24016339 } else 
    if k == 176 { 30027288 } else 
    if k == 177 { 40043502 } else 
    if k == 178 { 60072879 } else 
    if k == 179 { 120154908 } else 
    { 0 }
    }
}

/// Looks one boundary tangent up.
fn tan_q20(k: u16) -> (t: i64)
    requires
        0 <= k < 180,
    ensures
        t == spec_tan_q20(k as int),
        0 <= t <= 120154908,
{
    match k {
        0 => 0,
        1 => 9151,
        2 => 18303,
        3 => 27458,
        4 => 36617,
        5 => 45782,
        6 => 54954,
        7 => 64134,
        8 => 73324,
        9 => 82525,
        10 => 91739,
        11 => 100966,
        12 => 110210,
        13 => 119470,
        14 => 128749,
        15 => 138048,
        16 => 147368,
        17 => 156711,
        18 => 166078,
        19 => 175471,
        20 => 184892,
        21 => 194342,
        22 => 203823,
        23 => 213335,
        24 => 222882,
        25 => 232464,
        26 => 242083,
        27 => 251741,
        28 => 261439,
        29 => 271180,
        30 => 280965,
        31 => 290796,
        32 => 300674,
        33 => 310602,
        34 => 320582,
        35 => 330615,
        36 => 340703,
        37 => 350849,
        38 => 361054,
        39 => 371320,
        40 => 381650,
        41 => 392047,
        42 => 402511,
        43 => 413045,
        44 => 423652,
        45 => 434334,
        46 => 445094,
        47 => 455934,
        48 => 466856,
        49 => 477864,
        50 => 488959,
        51 => 500145,
        52 => 511425,
        53 => 522801,
        54 => 534276,
        55 => 545854,
        56 => 557538,
        57 => 569330,
        58 => 581235,
        59 => 593256,
        60 => 605396,
        61 => 617658,
        62 => 630048,
        63 => 642568,
        64 => 655223,
        65 => 668017,
        66 => 680953,
        67 => 694037,
        68 => 707273,
        69 => 720666,
        70 => 734221,
        71 => 747942,
        72 => 761835,
        73 => 775905,
        74 => 790159,
        75 => 804601,
        76 => 819237,
        77 => 834075,
        78 => 849120,
        79 => 864379,
        80 => 879860,
        81 => 895569,
        82 => 911513,
        83 => 927702,
        84 => 944142,
        85 => 960843,
        86 => 977813,
        87 => 995061,
        88 => 1012598,
        89 => 1030433,
        90 => 1048576,
        91 => 1067039,
        92 => 1085832,
        93 => 1104969,
        94 => 1124460,
        95 => 1144320,
        96 => 1164562,
        97 => 1185200,
        98 => 1206249,
        99 => 1227725,
        100 => 1249644,
        101 => 1272024,
        102 => 1294884,
        103 => 1318241,
        104 => 1342116,
        105 => 1366531,
        106 => 1391507,
        107 => 1417069,
        108 => 1443241,
        109 => 1470049,
        110 => 1497522,
        111 => 1525688,
        112 => 1554578,
        113 => 1584226,
        114 => 1614665,
        115 => 1645935,
        116 => 1678072,
        117 => 1711121,
        118 => 1745124,
        119 => 1780129,
        120 => 1816187,
        121 => 1853352,
        122 => 1891681,
        123 => 1931237,
        124 => 1972085,
        125 => 2014296,
        126 => 2057946,
        127 => 2103118,
        128 => 2149899,
        129 => 2198385,
        130 => 2248678,
        131 => 2300890,
        132 => 2355140,
        133 => 2411560,
        134 => 2470290,
        135 => 2531486,
        136 => 2595317,
        137 => 2661965,
        138 => 2731634,
        139 => 2804544,
        140 => 2880939,
        141 => 2961087,
        142 => 3045286,
        143 => 3133863,
        144 => 3227185,
        145 => 3325658,
        146 => 3429738,
        147 => 3539933,
        148 => 3656819,
        149 => 3781043,
        150 => 3913339,
        151 => 4054543,
        152 => 4205609,
        153 => 4367633,
        154 => 4541882,
        155 => 4729821,
        156 => 4933162,
        157 => 5153916,
        158 => 5394456,
        159 => 5657610,
        160 => 5946770,
        161 => 6266043,
        162 => 6620448,
        163 => 7016186,
        164 => 7461006,
        165 => 7964725,
        166 => 8539966,
        167 => 9203233,
        168 => 9976534,
        169 => 10889878,
        170 => 11985279,
        171 => 13323421,
        172 => 14995335,
        173 => 17144066,
        174 => 20008022,
        175 => 24016339,
        176 => 30027288,
        177 => 40043502,
        178 => 60072879,
        179 => 120154908,
        _ => 0,
    }
}

/// The x component of the viewing offset rotated so that the facing becomes
/// the positive x axis. Unknown facing names fall back to East, whose
/// reference bearing is zero.
pub open spec fn spec_rot_x(d: Seq<char>, dx: int, dy: int) -> int {
    if d == "N"@ || d == "n"@ {
        dy
    } else if d == "S"@ || d == "s"@ {
        -dy
    } else if d == "W"@ || d == "w"@ {
        -dx
    } else {
        dx
    }
}

/// The y component of the rotated viewing offset.
pub open spec fn spec_rot_y(d: Seq<char>, dx: int, dy: int) -> int {
    if d == "N"@ || d == "n"@ {
        -dx
    } else if d == "S"@ || d == "s"@ {
        dx
    } else if d == "W"@ || d == "w"@ {
        -dy
    } else {
        dy
    }
}

/// Twice the facing's own reference bearing, in half-degrees: what the
/// normalized bearing difference of the centre point is, under the
/// convention that the centre's bearing is zero.
pub open spec fn spec_center_code(d: Seq<char>) -> int {
    if d == "N"@ || d == "n"@ {
        180
    } else if d == "S"@ || d == "s"@ {
        180
    } else if d == "W"@ || d == "w"@ {
        360
    } else {
        0
    }
}

/// Whether the polar angle of the non-zero rotated offset `(rx, ry)` is at
/// most `h` half-degrees, i.e. at most half the cone angle `h` in degrees.
/// The quadrant boundaries are exact; inside a quadrant the comparison goes
/// through the fixed-point tangent table.
pub open spec fn spec_within_half_angle(rx: int, ry: int, h: int) -> bool {
    let a = if ry < 0 {
        -ry
    } else {
        ry
    };
    if h < 0 {
        false
    } else if a == 0 {
        rx > 0 || h >= 360
    } else if rx == 0 {
        h >= 180
    } else if rx > 0 {
        h >= 180 || a * 1048576 <= rx * spec_tan_q20(h)
    } else {
        h > 180 && (h >= 360 || a * 1048576 >= (-rx) * spec_tan_q20(360 - h))
    }
}

/// Whether the offset `(dx, dy)` from the viewer lies inside the cone of
/// `ang` degrees total width around the facing: the absolute normalized
/// difference between the offset's bearing and the facing's reference
/// bearing is at most half the cone angle.
pub open spec fn spec_in_sector(d: Seq<char>, ang: int, dx: int, dy: int) -> bool {
    if dx == 0 && dy == 0 {
        spec_center_code(d) <= ang
    } else {
        spec_within_half_angle(spec_rot_x(d, dx, dy), spec_rot_y(d, dx, dy), ang)
    }
}

/// Decides sector membership for one offset.
fn in_sector(direction: &String, angle_deg: i16, dx: i64, dy: i64) -> (b: bool)
    requires
        -0x8000_0000 <= dx <= 0x7fff_ffff,
        -0x8000_0000 <= dy <= 0x7fff_ffff,
    ensures
        b == spec_in_sector(direction@, angle_deg as int, dx as int, dy as int),
{
    let d = direction.as_str();
    let is_n = crate::cell_def::str_eq(d, "N") || crate::cell_def::str_eq(d, "n");
    let is_s = crate::cell_def::str_eq(d, "S") || crate::cell_def::str_eq(d, "s");
    let is_w = crate::cell_def::str_eq(d, "W") || crate::cell_def::str_eq(d, "w");
    if dx == 0 && dy == 0 {
        let code: i64 = if is_n || is_s {
            180
        } else if is_w {
            360
        } else {
            0
        };
        return code <= angle_deg as i64;
    }
    let rx: i64 = if is_n {
        dy
    } else if is_s {
        -dy
    } else if is_w {
        -dx
    } else {
        dx
    };
    let ry: i64 = if is_n {
        -dx
    } else if is_s {
        dx
    } else if is_w {
        -dy
    } else {
        dy
    };
    let h = angle_deg as i64;
    let a: i64 = if ry < 0 {
        -ry
    } else {
        ry
    };
    if h < 0 {
        false
    } else if a == 0 {
        rx > 0 || h >= 360
    } else if rx == 0 {
        h >= 180
    } else if rx > 0 {
        if h >= 180 {
            true
        } else {
            let t = tan_q20(h as u16);
            proof {
                assert(0 <= rx * t <= 0x8000_0000i64 * 120154908) by (nonlinear_arith)
                    requires
                        0 < rx <= 0x8000_0000i64,
                        0 <= t <= 120154908,
                ;
            }
            a * 1048576 <= rx * t
        }
    } else {
        if h <= 180 {
            false
        } else if h >= 360 {
            true
        } else {
            let t = tan_q20((360 - h) as u16);
            let u = -rx;
            proof {
                assert(0 <= u * t <= 0x8000_0000i64 * 120154908) by (nonlinear_arith)
                    requires
                        0 < u <= 0x8000_0000i64,
                        0 <= t <= 120154908,
                ;
            }
            a * 1048576 >= u * t
        }
    }
}

/// Whether the grid point `(x, y)` is accepted for a query centred at
/// `(cx, cy)`: inside the disc of the given radius and, unless the cone is
/// the full circle, inside the sector.
pub open spec fn spec_point_ok(
    cx: int,
    cy: int,
    r: int,
    d: Seq<char>,
    ang: int,
    x: int,
    y: int,
) -> bool {
    r >= 0 && (x - cx) * (x - cx) + (y - cy) * (y - cy) <= r * r && (ang >= 360 || spec_in_sector(
        d,
        ang,
        x - cx,
        y - cy,
    ))
}

/// The accepted points of one column `x`, for the first `j` values of `y`
/// counted from `cy - r`, in ascending order.
pub open spec fn spec_col_points(
    cx: int,
    cy: int,
    r: int,
    d: Seq<char>,
    ang: int,
    x: int,
    j: nat,
) -> Seq<Point>
    decreases j,
{
    if j == 0 {
        Seq::empty()
    } else {
        let prev = spec_col_points(cx, cy, r, d, ang, x, (j - 1) as nat);
        let y = cy - r + j - 1;
        if spec_point_ok(cx, cy, r, d, ang, x, y) {
            prev.push(Point { x: x as i32, y: y as i32 })
        } else {
            prev
        }
    }
}

/// The accepted points of the first `i` columns counted from `cx - r`,
/// column by column.
pub open spec fn spec_cols(cx: int, cy: int, r: int, d: Seq<char>, ang: int, i: nat) -> Seq<Point>
    decreases i,
{
    if i == 0 {
        Seq::empty()
    } else {
        spec_cols(cx, cy, r, d, ang, (i - 1) as nat) + spec_col_points(
            cx,
            cy,
            r,
            d,
            ang,
            cx - r + i - 1,
            (2 * r + 1) as nat,
        )
    }
}

/// Every accepted point of the query, in enumeration order: the outer loop
/// walks `x` ascending, the inner loop `y` ascending, over the bounding box
/// of the disc.
pub open spec fn spec_circle_slice(cx: int, cy: int, r: int, d: Seq<char>, ang: int) -> Seq<
    Point,
> {
    if r < 0 {
        Seq::empty()
    } else {
        spec_cols(cx, cy, r, d, ang, (2 * r + 1) as nat)
    }
}

/// Enumerates every grid point of the cone: inside the disc of the given
/// radius around the centre and, unless `angle_deg` is at least a full
/// circle, within half the cone angle of the facing's bearing.
pub fn circle_slice(center: (&i32, &i32), radius: i32, direction: &String, angle_deg: &i16) -> (
    points: Vec<Point>)
    requires
        -0x8000_0000 <= *center.0 - radius,
        *center.0 + radius <= 0x7fff_ffff,
        -0x8000_0000 <= *center.1 - radius,
        *center.1 + radius <= 0x7fff_ffff,
    ensures
        points@ == spec_circle_slice(
            *center.0 as int,
            *center.1 as int,
            radius as int,
            direction@,
            *angle_deg as int,
        ),
{
    let cx = *center.0;
    let cy = *center.1;
    let ang = *angle_deg;
    let mut points: Vec<Point> = Vec::new();
    if radius < 0 {
        return points;
    }
    let ghost cxi = cx as int;
    let ghost cyi = cy as int;
    let ghost ri = radius as int;
    let ghost d = direction@;
    let ghost angi = ang as int;
    let width: i64 = 2 * (radius as i64) + 1;
    let mut i: i64 = 0;
    while i < width
        invariant
            0 <= i <= width,
            width == 2 * ri + 1,
            ri >= 0,
            ri == radius as int,
            cxi == cx as int,
            cyi == cy as int,
            angi == ang as int,
            d == direction@,
            -0x8000_0000 <= cxi - ri,
            cxi + ri <= 0x7fff_ffff,
            -0x8000_0000 <= cyi - ri,
            cyi + ri <= 0x7fff_ffff,
            points@ == spec_cols(cxi, cyi, ri, d, angi, i as nat),
        decreases width - i,
    {
        let x: i64 = (cx as i64) - (radius as i64) + i;
        let mut j: i64 = 0;
        while j < width
            invariant
                0 <= j <= width,
                0 <= i < width,
                width == 2 * ri + 1,
                ri >= 0,
                ri == radius as int,
                x as int == cxi - ri + i as int,
                cxi == cx as int,
                cyi == cy as int,
                angi == ang as int,
                d == direction@,
                -0x8000_0000 <= cxi - ri,
                cxi + ri <= 0x7fff_ffff,
                -0x8000_0000 <= cyi - ri,
                cyi + ri <= 0x7fff_ffff,
                points@ == spec_cols(cxi, cyi, ri, d, angi, i as nat) + spec_col_points(
                    cxi,
                    cyi,
                    ri,
                    d,
                    angi,
                    x as int,
                    j as nat,
                ),
            decreases width - j,
        {
            let y: i64 = (cy as i64) - (radius as i64) + j;
            let dx: i64 = x - (cx as i64);
            let dy: i64 = y - (cy as i64);
            proof {
                assert(0 <= dx * dx <= 0x7fff_ffffi64 * 0x7fff_ffffi64) by (nonlinear_arith)
                    requires
                        -0x7fff_ffffi64 <= dx <= 0x7fff_ffffi64,
                ;
                assert(0 <= dy * dy <= 0x7fff_ffffi64 * 0x7fff_ffffi64) by (nonlinear_arith)
                    requires
                        -0x7fff_ffffi64 <= dy <= 0x7fff_ffffi64,
                ;
                assert(0 <= (radius as i64) * (radius as i64) <= 0x7fff_ffffi64 * 0x7fff_ffffi64)
                    by (nonlinear_arith)
                    requires
                        0 <= radius as i64 <= 0x7fff_ffffi64,
                ;
            }
            let dist2: i64 = dx * dx + dy * dy;
            let r2: i64 = (radius as i64) * (radius as i64);
            let ok: bool = dist2 <= r2 && (ang >= 360 || in_sector(direction, ang, dx, dy));
            if ok {
                points.push(Point { x: x as i32, y: y as i32 });
            }
            j += 1;
        }
        proof {
            assert(points@ == spec_cols(cxi, cyi, ri, d, angi, (i + 1) as nat));
        }
        i += 1;
    }
    points
}

/// Membership in one column of the enumeration.
proof fn lemma_col_points_member(
    cx: int,
    cy: int,
    r: int,
    d: Seq<char>,
    ang: int,
    x: int,
    j: nat,
    p: Point,
)
    requires
        r >= 0,
        -0x8000_0000 <= cy - r,
        cy + r <= 0x7fff_ffff,
        -0x8000_0000 <= x <= 0x7fff_ffff,
        j <= 2 * r + 1,
    ensures
        spec_col_points(cx, cy, r, d, ang, x, j).contains(p) <==> exists|y: int|
            cy - r <= y < cy - r + j && #[trigger] spec_point_ok(cx, cy, r, d, ang, x, y) && p == (
            Point { x: x as i32, y: y as i32 }),
    decreases j,
{
    let cur = spec_col_points(cx, cy, r, d, ang, x, j);
    if j == 0 {
        assert(!cur.contains(p));
    } else {
        lemma_col_points_member(cx, cy, r, d, ang, x, (j - 1) as nat, p);
        let prev = spec_col_points(cx, cy, r, d, ang, x, (j - 1) as nat);
        let yj = cy - r + j - 1;
        if spec_point_ok(cx, cy, r, d, ang, x, yj) {
            let pj = Point { x: x as i32, y: yj as i32 };
            assert(cur == prev.push(pj));
            assert(cur[cur.len() - 1] == pj);
            assert(cur.contains(pj));
            assert forall|q: Point| #[trigger] prev.contains(q) implies cur.contains(q) by {
                let idx = choose|idx: int| 0 <= idx < prev.len() && prev[idx] == q;
                assert(cur[idx] == q);
            }
            if cur.contains(p) {
                let idx = choose|idx: int| 0 <= idx < cur.len() && cur[idx] == p;
                if idx < prev.len() {
                    assert(prev[idx] == p);
                    assert(prev.contains(p));
                    let y0 = choose|y0: int|
                        cy - r <= y0 < cy - r + j - 1 && #[trigger] spec_point_ok(
                            cx,
                            cy,
                            r,
                            d,
                            ang,
                            x,
                            y0,
                        ) && p == (Point { x: x as i32, y: y0 as i32 });
                    assert(cy - r <= y0 < cy - r + j);
                } else {
                    assert(p == pj);
                    assert(cy - r <= yj < cy - r + j && spec_point_ok(cx, cy, r, d, ang, x, yj)
                        && p == (Point { x: x as i32, y: yj as i32 }));
                }
            }
            if exists|y0: int|
                cy - r <= y0 < cy - r + j && #[trigger] spec_point_ok(cx, cy, r, d, ang, x, y0)
                    && p == (Point { x: x as i32, y: y0 as i32 }) {
                let y0 = choose|y0: int|
                    cy - r <= y0 < cy - r + j && #[trigger] spec_point_ok(cx, cy, r, d, ang, x, y0)
                        && p == (Point { x: x as i32, y: y0 as i32 });
                if y0 == yj {
                    assert(p == pj);
                } else {
                    assert(cy - r <= y0 < cy - r + j - 1);
                    assert(prev.contains(p));
                }
            }
        } else {
            assert(cur == prev);
            if exists|y0: int|
                cy - r <= y0 < cy - r + j && #[trigger] spec_point_ok(cx, cy, r, d, ang, x, y0)
                    && p == (Point { x: x as i32, y: y0 as i32 }) {
                let y0 = choose|y0: int|
                    cy - r <= y0 < cy - r + j && #[trigger] spec_point_ok(cx, cy, r, d, ang, x, y0)
                        && p == (Point { x: x as i32, y: y0 as i32 });
                assert(y0 != yj);
                assert(cy - r <= y0 < cy - r + j - 1);
            }
        }
    }
}

/// Membership in the first `i` columns of the enumeration.
proof fn lemma_cols_member(cx: int, cy: int, r: int, d: Seq<char>, ang: int, i: nat, p: Point)
    requires
        r >= 0,
        -0x8000_0000 <= cx - r,
        cx + r <= 0x7fff_ffff,
        -0x8000_0000 <= cy - r,
        cy + r <= 0x7fff_ffff,
        i <= 2 * r + 1,
    ensures
        spec_cols(cx, cy, r, d, ang, i).contains(p) <==> exists|x: int, y: int|
            cx - r <= x < cx - r + i && cy - r <= y <= cy + r && #[trigger] spec_point_ok(
                cx,
                cy,
                r,
                d,
                ang,
                x,
                y,
            ) && p == (Point { x: x as i32, y: y as i32 }),
    decreases i,
{
    if i == 0 {
        assert(!spec_cols(cx, cy, r, d, ang, i).contains(p));
    } else {
        lemma_cols_member(cx, cy, r, d, ang, (i - 1) as nat, p);
        let xi = cx - r + i - 1;
        let prev = spec_cols(cx, cy, r, d, ang, (i - 1) as nat);
        let col = spec_col_points(cx, cy, r, d, ang, xi, (2 * r + 1) as nat);
        let cur = spec_cols(cx, cy, r, d, ang, i);
        assert(cur == prev + col);
        lemma_col_points_member(cx, cy, r, d, ang, xi, (2 * r + 1) as nat, p);
        assert forall|q: Point| cur.contains(q) implies prev.contains(q) || col.contains(q) by {
            let idx = choose|idx: int| 0 <= idx < cur.len() && cur[idx] == q;
            if idx < prev.len() {
                assert(prev[idx] == q);
            } else {
                assert(col[idx - prev.len()] == q);
            }
        }
        assert forall|q: Point| prev.contains(q) || col.contains(q) implies cur.contains(q) by {
            if prev.contains(q) {
                let idx = choose|idx: int| 0 <= idx < prev.len() && prev[idx] == q;
                assert(cur[idx] == q);
            } else {
                let idx = choose|idx: int| 0 <= idx < col.len() && col[idx] == q;
                assert(cur[prev.len() + idx] == q);
            }
        }
    }
}

/// What the enumeration contains, point by point: exactly the accepted
/// points, where acceptance is the disc test and, for a partial cone, the
/// sector test.
pub proof fn lemma_circle_slice_member(
    cx: int,
    cy: int,
    r: int,
    d: Seq<char>,
    ang: int,
    x: int,
    y: int,
)
    requires
        -0x8000_0000 <= cx - r,
        cx + r <= 0x7fff_ffff,
        -0x8000_0000 <= cy - r,
        cy + r <= 0x7fff_ffff,
        -0x8000_0000 <= x <= 0x7fff_ffff,
        -0x8000_0000 <= y <= 0x7fff_ffff,
    ensures
        spec_circle_slice(cx, cy, r, d, ang).contains(Point { x: x as i32, y: y as i32 })
            <==> spec_point_ok(cx, cy, r, d, ang, x, y),
{
    let p = Point { x: x as i32, y: y as i32 };
    if r < 0 {
        assert(!spec_point_ok(cx, cy, r, d, ang, x, y));
        assert(!spec_circle_slice(cx, cy, r, d, ang).contains(p));
    } else {
        lemma_cols_member(cx, cy, r, d, ang, (2 * r + 1) as nat, p);
        if spec_point_ok(cx, cy, r, d, ang, x, y) {
            assert((x - cx) * (x - cx) <= r * r && (y - cy) * (y - cy) <= r * r) by (nonlinear_arith)
                requires
                    (x - cx) * (x - cx) + (y - cy) * (y - cy) <= r * r,
            ;
            assert(cx - r <= x <= cx + r && cy - r <= y <= cy + r) by (nonlinear_arith)
                requires
                    (x - cx) * (x - cx) <= r * r,
                    (y - cy) * (y - cy) <= r * r,
                    r >= 0,
            ;
            assert(spec_circle_slice(cx, cy, r, d, ang).contains(p));
        }
        if spec_circle_slice(cx, cy, r, d, ang).contains(p) {
            let (x0, y0) = choose|x0: int, y0: int|
                cx - r <= x0 < cx + r + 1 && cy - r <= y0 <= cy + r && #[trigger] spec_point_ok(
                    cx,
                    cy,
                    r,
                    d,
                    ang,
                    x0,
                    y0,
                ) && p == (Point { x: x0 as i32, y: y0 as i32 });
            assert(x0 as i32 == x as i32 && y0 as i32 == y as i32);
            assert(x0 == x && y0 == y);
        }
    }
}

/// A full-circle query returns exactly the disc: with a cone of at least
/// 360 degrees a point is enumerated if and only if it lies within the
/// radius of the centre, whatever the facing.
pub proof fn lemma_full_circle_is_disc(
    cx: int,
    cy: int,
    r: int,
    d: Seq<char>,
    ang: int,
    x: int,
    y: int,
)
    requires
        ang >= 360,
        -0x8000_0000 <= cx - r,
        cx + r <= 0x7fff_ffff,
        -0x8000_0000 <= cy - r,
        cy + r <= 0x7fff_ffff,
        -0x8000_0000 <= x <= 0x7fff_ffff,
        -0x8000_0000 <= y <= 0x7fff_ffff,
    ensures
        spec_circle_slice(cx, cy, r, d, ang).contains(Point { x: x as i32, y: y as i32 }) <==> (r
            >= 0 && (x - cx) * (x - cx) + (y - cy) * (y - cy) <= r * r),
{
    lemma_circle_slice_member(cx, cy, r, d, ang, x, y);
}

/// A zero-degree cone accepts exactly the points on the facing ray: for an
/// eastward viewer these are the offsets with no sideways component, the
/// centre included.
pub proof fn lemma_zero_cone_is_ray(dx: int, dy: int)
    ensures
        spec_in_sector("E"@, 0, dx, dy) <==> (dy == 0 && dx >= 0),
{
    reveal_strlit("E");
    reveal_strlit("N");
    reveal_strlit("n");
    reveal_strlit("S");
    reveal_strlit("s");
    reveal_strlit("W");
    reveal_strlit("w");
    assert("E"@.len() == 1);
    assert("E"@[0] == 'E');
    assert("E"@ != "N"@);
    assert("E"@ != "n"@);
    assert("E"@ != "S"@);
    assert("E"@ != "s"@);
    assert("E"@ != "W"@);
    assert("E"@ != "w"@);
    assert(spec_rot_x("E"@, dx, dy) == dx);
    assert(spec_rot_y("E"@, dx, dy) == dy);
    assert(spec_center_code("E"@) == 0);
    if dx == 0 && dy == 0 {
        assert(spec_in_sector("E"@, 0, dx, dy));
    } else {
        assert(spec_in_sector("E"@, 0, dx, dy) == spec_within_half_angle(dx, dy, 0));
    }
}

/// A zero-degree cone facing north accepts exactly the points straight
/// above the centre; the centre itself is excluded, since its bearing
/// differs from north by a quarter turn under the zero-bearing convention.
pub proof fn lemma_zero_cone_is_ray_north(dx: int, dy: int)
    ensures
        spec_in_sector("N"@, 0, dx, dy) <==> (dx == 0 && dy > 0),
{
    reveal_strlit("N");
    reveal_strlit("n");
    assert("N"@.len() == 1);
    assert("N"@[0] == 'N');
    assert(spec_center_code("N"@) == 180);
    if !(dx == 0 && dy == 0) {
        assert(spec_rot_x("N"@, dx, dy) == dy && spec_rot_y("N"@, dx, dy) == -dx);
    }
}

/// A zero-degree cone facing south accepts exactly the points straight
/// below the centre; the centre itself is excluded.
pub proof fn lemma_zero_cone_is_ray_south(dx: int, dy: int)
    ensures
        spec_in_sector("S"@, 0, dx, dy) <==> (dx == 0 && dy < 0),
{
    reveal_strlit("S");
    reveal_strlit("s");
    reveal_strlit("N");
    reveal_strlit("n");
    assert("S"@.len() == 1);
    assert("S"@[0] == 'S' && "N"@[0] == 'N' && "n"@[0] == 'n' && "s"@[0] == 's');
    assert("S"@ != "N"@ && "S"@ != "n"@);
    assert(spec_center_code("S"@) == 180);
    if !(dx == 0 && dy == 0) {
        assert(spec_rot_x("S"@, dx, dy) == -dy && spec_rot_y("S"@, dx, dy) == dx);
    }
}

/// A zero-degree cone facing west accepts exactly the points straight to
/// the left of the centre; the centre itself is excluded, its bearing
/// differing from west by a half turn.
pub proof fn lemma_zero_cone_is_ray_west(dx: int, dy: int)
    ensures
        spec_in_sector("W"@, 0, dx, dy) <==> (dy == 0 && dx < 0),
{
    reveal_strlit("W");
    reveal_strlit("w");
    reveal_strlit("N");
    reveal_strlit("n");
    reveal_strlit("S");
    reveal_strlit("s");
    assert("W"@.len() == 1);
    assert("W"@[0] == 'W' && "N"@[0] == 'N' && "n"@[0] == 'n' && "S"@[0] == 'S' && "s"@[0]
        == 's');
    assert("W"@ != "N"@ && "W"@ != "n"@ && "W"@ != "S"@ && "W"@ != "s"@);
    assert(spec_center_code("W"@) == 360);
    if !(dx == 0 && dy == 0) {
        assert(spec_rot_x("W"@, dx, dy) == -dx && spec_rot_y("W"@, dx, dy) == -dy);
    }
}

/// Swapping the facing north for south mirrors the accepted offsets about
/// the horizontal axis, for every cone angle and offset.
pub proof fn lemma_sector_symmetric_ns(ang: int, dx: int, dy: int)
    ensures
        spec_in_sector("N"@, ang, dx, dy) == spec_in_sector("S"@, ang, dx, -dy),
{
    reveal_strlit("N");
    reveal_strlit("n");
    reveal_strlit("S");
    reveal_strlit("s");
    reveal_strlit("W");
    reveal_strlit("w");
    assert("N"@[0] == 'N' && "n"@[0] == 'n' && "S"@[0] == 'S' && "s"@[0] == 's');
    assert("S"@ != "N"@ && "S"@ != "n"@);
    assert(spec_center_code("N"@) == 180 && spec_center_code("S"@) == 180);
    assert(spec_rot_x("N"@, dx, dy) == dy && spec_rot_y("N"@, dx, dy) == -dx);
    assert(spec_rot_x("S"@, dx, -dy) == dy && spec_rot_y("S"@, dx, -dy) == dx);
    if !(dx == 0 && dy == 0) {
        assert(spec_within_half_angle(dy, -dx, ang) == spec_within_half_angle(dy, dx, ang));
    }
}

/// Swapping the facing east for west mirrors the accepted offsets about
/// the vertical axis, for every cone angle and every offset but the centre
/// (the centre's bearing convention favours east).
pub proof fn lemma_sector_symmetric_ew(ang: int, dx: int, dy: int)
    requires
        !(dx == 0 && dy == 0),
    ensures
        spec_in_sector("E"@, ang, dx, dy) == spec_in_sector("W"@, ang, -dx, dy),
{
    reveal_strlit("E");
    reveal_strlit("N");
    reveal_strlit("n");
    reveal_strlit("S");
    reveal_strlit("s");
    reveal_strlit("W");
    reveal_strlit("w");
    assert("E"@[0] == 'E' && "W"@[0] == 'W');
    assert("E"@ != "N"@ && "E"@ != "n"@ && "E"@ != "S"@ && "E"@ != "s"@ && "E"@ != "W"@ && "E"@
        != "w"@);
    assert("W"@ != "N"@ && "W"@ != "n"@ && "W"@ != "S"@ && "W"@ != "s"@);
    assert(spec_rot_x("E"@, dx, dy) == dx && spec_rot_y("E"@, dx, dy) == dy);
    assert(spec_rot_x("W"@, -dx, dy) == dx && spec_rot_y("W"@, -dx, dy) == -dy);
    assert(spec_within_half_angle(dx, dy, ang) == spec_within_half_angle(dx, -dy, ang));
}

/// The snapshot record for one accepted, in-bounds point: the coordinate
/// translated into the viewer's frame, and the critter cell when occupied,
/// the terrain value otherwise.
pub open spec fn spec_square_for(
    cg: Seq<Seq<CellView>>,
    tg: Seq<Seq<u8>>,
    ax: int,
    ay: int,
    px: int,
    py: int,
) -> SquareView {
    SquareView {
        x: px - ax,
        y: py - ay,
        content: if cg[py][px].kind != crate::cell_def::CellKind::Empty {
            SquareKindView::CritterCell(cg[py][px])
        } else {
            SquareKindView::WorldCell(tg[py][px])
        },
    }
}

/// The snapshot built from the first `k` enumerated points: accepted points
/// outside the world bounds are silently excluded, the rest are packaged in
/// enumeration order.
pub open spec fn spec_pkg_points(
    cg: Seq<Seq<CellView>>,
    tg: Seq<Seq<u8>>,
    n: int,
    ax: int,
    ay: int,
    pts: Seq<Point>,
    k: nat,
) -> Seq<SquareView>
    decreases k,
{
    if k == 0 {
        Seq::empty()
    } else {
        let prev = spec_pkg_points(cg, tg, n, ax, ay, pts, (k - 1) as nat);
        let p = pts[k - 1];
        if 0 <= p.x < n && 0 <= p.y < n {
            prev.push(spec_square_for(cg, tg, ax, ay, p.x as int, p.y as int))
        } else {
            prev
        }
    }
}

/// Answers a field-of-view query for a known soul: every cone point inside
/// the world, translated to the viewer's local frame and read from the
/// grids. An unknown viewer gets no snapshot; the world is never changed.
pub fn generate_visual_pkg(
    world_data: &crate::world::WorldData,
    soul_id: &String,
    x: &i32,
    y: &i32,
    radius: i32,
    direction: &String,
    angle_deg: &i16,
) -> (r: Option<Vec<Square>>)
    requires
        world_data.wf(),
        -0x8000_0000 <= *x - radius,
        *x + radius <= 0x7fff_ffff,
        -0x8000_0000 <= *y - radius,
        *y + radius <= 0x7fff_ffff,
    ensures
        r is Some <==> crate::world::spec_index_has(world_data.index(), soul_id@),
        r matches Some(v) ==> forall|k: int|
            0 <= k < world_data.index().len() && (#[trigger] world_data.index()[k]).0 == soul_id@
                ==> v.deep_view() == spec_pkg_points(
                world_data.cgrid(),
                world_data.tgrid(),
                world_data.spec_size(),
                world_data.index()[k].1 as int,
                world_data.index()[k].2 as int,
                spec_circle_slice(
                    *x as int,
                    *y as int,
                    radius as int,
                    direction@,
                    *angle_deg as int,
                ),
                spec_circle_slice(
                    *x as int,
                    *y as int,
                    radius as int,
                    direction@,
                    *angle_deg as int,
                ).len(),
            ),
{
    let anchor = world_data.soul_location(soul_id);
    let (ax, ay) = match anchor {
        Some(a) => a,
        None => {
            return None;
        },
    };
    let ghost kw = choose|k: int|
        0 <= k < world_data.index().len() && #[trigger] world_data.index()[k] == (soul_id@, ax, ay);
    proof {
        assert forall|k: int|
            0 <= k < world_data.index().len() && (#[trigger] world_data.index()[k]).0 == soul_id@
            implies world_data.index()[k].1 == ax && world_data.index()[k].2 == ay by {
            if k != kw {
                assert(world_data.index()[k].0 == world_data.index()[kw].0);
            }
        }
    }
    let points = circle_slice((x, y), radius, direction, angle_deg);
    let ghost cg = world_data.cgrid();
    let ghost tg = world_data.tgrid();
    let ghost n = world_data.spec_size();
    let ghost pts = points@;
    let mut pkg: Vec<Square> = Vec::new();
    let mut k: usize = 0;
    while k < points.len()
        invariant
            world_data.wf(),
            k <= points@.len(),
            cg == world_data.cgrid(),
            tg == world_data.tgrid(),
            n == world_data.spec_size(),
            pts == points@,
            ax < n,
            ay < n,
            pkg.deep_view() == spec_pkg_points(cg, tg, n, ax as int, ay as int, pts, k as nat),
        decreases points@.len() - k,
    {
        let p = points[k];
        if world_data.is_in_bounds(p.x, p.y) {
            let content = if world_data.is_critter_at(p.x, p.y) {
                proof {
                    assert(world_data.critter_layer@.len() == cg.len());
                    assert(world_data.critter_layer@[p.y as int]@.len() == cg[p.y as int].len());
                }
                SquareKind::CritterCell(
                    world_data.critter_layer[p.y as usize][p.x as usize].clone(),
                )
            } else {
                proof {
                    assert(world_data.world@.len() == tg.len());
                    assert(world_data.world@[p.y as int]@.len() == tg[p.y as int].len());
                }
                SquareKind::WorldCell(world_data.world[p.y as usize][p.x as usize])
            };
            let lx = (p.x as i64) - (ax as i64);
            let ly = (p.y as i64) - (ay as i64);
            let square = Square { x: lx as i32, y: ly as i32, content };
            proof {
                assert(square.deep_view() == spec_square_for(
                    cg,
                    tg,
                    ax as int,
                    ay as int,
                    p.x as int,
                    p.y as int,
                ));
            }
            pkg.push(square);
            proof {
                assert(pkg.deep_view() =~= spec_pkg_points(
                    cg,
                    tg,
                    n,
                    ax as int,
                    ay as int,
                    pts,
                    (k + 1) as nat,
                ));
            }
        } else {
            proof {
                assert(pkg.deep_view() =~= spec_pkg_points(
                    cg,
                    tg,
                    n,
                    ax as int,
                    ay as int,
                    pts,
                    (k + 1) as nat,
                ));
            }
        }
        k += 1;
    }
    Some(pkg)
}

/// The returned point set mirrors about the horizontal axis through the
/// centre when the facing is swapped north for south, the cone angle held
/// fixed.
pub proof fn lemma_slice_symmetric_ns(cx: int, cy: int, r: int, ang: int, x: int, y: int)
    requires
        -0x8000_0000 <= cx - r,
        cx + r <= 0x7fff_ffff,
        -0x8000_0000 <= cy - r,
        cy + r <= 0x7fff_ffff,
        -0x8000_0000 <= x <= 0x7fff_ffff,
        -0x8000_0000 <= y <= 0x7fff_ffff,
        -0x8000_0000 <= 2 * cy - y <= 0x7fff_ffff,
    ensures
        spec_circle_slice(cx, cy, r, "N"@, ang).contains(Point { x: x as i32, y: y as i32 })
            <==> spec_circle_slice(cx, cy, r, "S"@, ang).contains(
            Point { x: x as i32, y: (2 * cy - y) as i32 },
        ),
{
    lemma_circle_slice_member(cx, cy, r, "N"@, ang, x, y);
    lemma_circle_slice_member(cx, cy, r, "S"@, ang, x, 2 * cy - y);
    lemma_sector_symmetric_ns(ang, x - cx, y - cy);
    assert((2 * cy - y - cy) * (2 * cy - y - cy) == (y - cy) * (y - cy)) by (nonlinear_arith);
}

/// The returned point set mirrors about the vertical axis through the
/// centre when the facing is swapped east for west, the cone angle held
/// fixed; the centre point itself is the one exception, because its bearing
/// convention favours east.
pub proof fn lemma_slice_symmetric_ew(cx: int, cy: int, r: int, ang: int, x: int, y: int)
    requires
        -0x8000_0000 <= cx - r,
        cx + r <= 0x7fff_ffff,
        -0x8000_0000 <= cy - r,
        cy + r <= 0x7fff_ffff,
        -0x8000_0000 <= x <= 0x7fff_ffff,
        -0x8000_0000 <= y <= 0x7fff_ffff,
        -0x8000_0000 <= 2 * cx - x <= 0x7fff_ffff,
        !(x == cx && y == cy),
    ensures
        spec_circle_slice(cx, cy, r, "E"@, ang).contains(Point { x: x as i32, y: y as i32 })
            <==> spec_circle_slice(cx, cy, r, "W"@, ang).contains(
            Point { x: (2 * cx - x) as i32, y: y as i32 },
        ),
{
    lemma_circle_slice_member(cx, cy, r, "E"@, ang, x, y);
    lemma_circle_slice_member(cx, cy, r, "W"@, ang, 2 * cx - x, y);
    lemma_sector_symmetric_ew(ang, x - cx, y - cy);
    assert((2 * cx - x - cx) * (2 * cx - x - cx) == (x - cx) * (x - cx)) by (nonlinear_arith);
}

} // verus!
