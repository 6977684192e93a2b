//! Single-byte legacy code pages (windows-1251 and IBM866), encoded from Unicode scalar values.

use vstd::prelude::*;

verus! {

/// Upper half (bytes 0x80..=0xFF) of windows-1251, as UTF-16 code units.
pub const WIN1251_DATA: [u16; 128] = [
    0x0402, 0x0403, 0x201A, 0x0453, 0x201E, 0x2026, 0x2020, 0x2021, 0x20AC, 0x2030, 0x0409, 0x2039,
    0x040A, 0x040C, 0x040B, 0x040F, 0x0452, 0x2018, 0x2019, 0x201C, 0x201D, 0x2022, 0x2013, 0x2014,
    0x0098, 0x2122, 0x0459, 0x203A, 0x045A, 0x045C, 0x045B, 0x045F, 0x00A0, 0x040E, 0x045E, 0x0408,
    0x00A4, 0x0490, 0x00A6, 0x00A7, 0x0401, 0x00A9, 0x0404, 0x00AB, 0x00AC, 0x00AD, 0x00AE, 0x0407,
    0x00B0, 0x00B1, 0x0406, 0x0456, 0x0491, 0x00B5, 0x00B6, 0x00B7, 0x0451, 0x2116, 0x0454, 0x00BB,
    0x0458, 0x0405, 0x0455, 0x0457, 0x0410, 0x0411, 0x0412, 0x0413, 0x0414, 0x0415, 0x0416, 0x0417,
    0x0418, 0x0419, 0x041A, 0x041B, 0x041C, 0x041D, 0x041E, 0x041F, 0x0420, 0x0421, 0x0422, 0x0423,
    0x0424, 0x0425, 0x0426, 0x0427, 0x0428, 0x0429, 0x042A, 0x042B, 0x042C, 0x042D, 0x042E, 0x042F,
    0x0430, 0x0431, 0x0432, 0x0433, 0x0434, 0x0435, 0x0436, 0x0437, 0x0438, 0x0439, 0x043A, 0x043B,
    0x043C, 0x043D, 0x043E, 0x043F, 0x0440, 0x0441, 0x0442, 0x0443, 0x0444, 0x0445, 0x0446, 0x0447,
    0x0448, 0x0449, 0x044A, 0x044B, 0x044C, 0x044D, 0x044E, 0x044F,
];

/// Upper half (bytes 0x80..=0xFF) of IBM866, as UTF-16 code units.
pub const CP866_DATA: [u16; 128] = [
    0x0410, 0x0411, 0x0412, 0x0413, 0x0414, 0x0415, 0x0416, 0x0417, 0x0418, 0x0419, 0x041A, 0x041B,
    0x041C, 0x041D, 0x041E, 0x041F, 0x0420, 0x0421, 0x0422, 0x0423, 0x0424, 0x0425, 0x0426, 0x0427,
    0x0428, 0x0429, 0x042A, 0x042B, 0x042C, 0x042D, 0x042E, 0x042F, 0x0430, 0x0431, 0x0432, 0x0433,
    0x0434, 0x0435, 0x0436, 0x0437, 0x0438, 0x0439, 0x043A, 0x043B, 0x043C, 0x043D, 0x043E, 0x043F,
    0x2591, 0x2592, 0x2593, 0x2502, 0x2524, 0x2561, 0x2562, 0x2556, 0x2555, 0x2563, 0x2551, 0x2557,
    0x255D, 0x255C, 0x255B, 0x2510, 0x2514, 0x2534, 0x252C, 0x251C, 0x2500, 0x253C, 0x255E, 0x255F,
    0x255A, 0x2554, 0x2569, 0x2566, 0x2560, 0x2550, 0x256C, 0x2567, 0x2568, 0x2564, 0x2565, 0x2559,
    0x2558, 0x2552, 0x2553, 0x256B, 0x256A, 0x2518, 0x250C, 0x2588, 0x2584, 0x258C, 0x2590, 0x2580,
    0x0440, 0x0441, 0x0442, 0x0443, 0x0444, 0x0445, 0x0446, 0x0447, 0x0448, 0x0449, 0x044A, 0x044B,
    0x044C, 0x044D, 0x044E, 0x044F, 0x0401, 0x0451, 0x0404, 0x0454, 0x0407, 0x0457, 0x040E, 0x045E,
    0x00B0, 0x2219, 0x00B7, 0x221A, 0x2116, 0x00A4, 0x25A0, 0x00A0,
];

/// Position in `WIN1251_DATA` of code unit `unit`, or 128 where it does not occur.
#[verifier::opaque]
pub open spec fn win1251_byte_of(unit: u16) -> int {
    if unit == 0x0402 {
        0
    } else if unit == 0x0403 {
        1
    } else if unit == 0x201A {
        2
    } else if unit == 0x0453 {
        3
    } else if unit == 0x201E {
        4
    } else if unit == 0x2026 {
        5
    } else if unit == 0x2020 {
        6
    } else if unit == 0x2021 {
        7
    } else if unit == 0x20AC {
        8
    } else if unit == 0x2030 {
        9
    } else if unit == 0x0409 {
        10
    } else if unit == 0x2039 {
        11
    } else if unit == 0x040A {
        12
    } else if unit == 0x040C {
        13
    } else if unit == 0x040B {
        14
    } else if unit == 0x040F {
        15
    } else if unit == 0x0452 {
        16
    } else if unit == 0x2018 {
        17
    } else if unit == 0x2019 {
        18
    } else if unit == 0x201C {
        19
    } else if unit == 0x201D {
        20
    } else if unit == 0x2022 {
        21
    } else if unit == 0x2013 {
        22
    } else if unit == 0x2014 {
        23
    } else if unit == 0x0098 {
        24
    } else if unit == 0x2122 {
        25
    } else if unit == 0x0459 {
        26
    } else if unit == 0x203A {
        27
    } else if unit == 0x045A {
        28
    } else if unit == 0x045C {
        29
    } else if unit == 0x045B {
        30
    } else if unit == 0x045F {
        31
    } else if unit == 0x00A0 {
        32
    } else if unit == 0x040E {
        33
    } else if unit == 0x045E {
        34
    } else if unit == 0x0408 {
        35
    } else if unit == 0x00A4 {
        36
    } else if unit == 0x0490 {
        37
    } else if unit == 0x00A6 {
        38
    } else if unit == 0x00A7 {
        39
    } else if unit == 0x0401 {
        40
    } else if unit == 0x00A9 {
        41
    } else if unit == 0x0404 {
        42
    } else if unit == 0x00AB {
        43
    } else if unit == 0x00AC {
        44
    } else if unit == 0x00AD {
        45
    } else if unit == 0x00AE {
        46
    } else if unit == 0x0407 {
        47
    } else if unit == 0x00B0 {
        48
    } else if unit == 0x00B1 {
        49
    } else if unit == 0x0406 {
        50
    } else if unit == 0x0456 {
        51
    } else if unit == 0x0491 {
        52
    } else if unit == 0x00B5 {
        53
    } else if unit == 0x00B6 {
        54
    } else if unit == 0x00B7 {
        55
    } else if unit == 0x0451 {
        56
    } else if unit == 0x2116 {
        57
    } else if unit == 0x0454 {
        58
    } else if unit == 0x00BB {
        59
    } else if unit == 0x0458 {
        60
    } else if unit == 0x0405 {
        61
    } else if unit == 0x0455 {
        62
    } else if unit == 0x0457 {
        63
    } else if unit == 0x0410 {
        64
    } else if unit == 0x0411 {
        65
    } else if unit == 0x0412 {
        66
    } else if unit == 0x0413 {
        67
    } else if unit == 0x0414 {
        68
    } else if unit == 0x0415 {
        69
    } else if unit == 0x0416 {
        70
    } else if unit == 0x0417 {
        71
    } else if unit == 0x0418 {
        72
    } else if unit == 0x0419 {
        73
    } else if unit == 0x041A {
        74
    } else if unit == 0x041B {
        75
    } else if unit == 0x041C {
        76
    } else if unit == 0x041D {
        77
    } else if unit == 0x041E {
        78
    } else if unit == 0x041F {
        79
    } else if unit == 0x0420 {
        80
    } else if unit == 0x0421 {
        81
    } else if unit == 0x0422 {
        82
    } else if unit == 0x0423 {
        83
    } else if unit == 0x0424 {
        84
    } else if unit == 0x0425 {
        85
    } else if unit == 0x0426 {
        86
    } else if unit == 0x0427 {
        87
    } else if unit == 0x0428 {
        88
    } else if unit == 0x0429 {
        89
    } else if unit == 0x042A {
        90
    } else if unit == 0x042B {
        91
    } else if unit == 0x042C {
        92
    } else if unit == 0x042D {
        93
    } else if unit == 0x042E {
        94
    } else if unit == 0x042F {
        95
    } else if unit == 0x0430 {
        96
    } else if unit == 0x0431 {
        97
    } else if unit == 0x0432 {
        98
    } else if unit == 0x0433 {
        99
    } else if unit == 0x0434 {
        100
    } else if unit == 0x0435 {
        101
    } else if unit == 0x0436 {
        102
    } else if unit == 0x0437 {
        103
    } else if unit == 0x0438 {
        104
    } else if unit == 0x0439 {
        105
    } else if unit == 0x043A {
        106
    } else if unit == 0x043B {
        107
    } else if unit == 0x043C {
        108
    } else if unit == 0x043D {
        109
    } else if unit == 0x043E {
        110
    } else if unit == 0x043F {
        111
    } else if unit == 0x0440 {
        112
    } else if unit == 0x0441 {
        113
    } else if unit == 0x0442 {
        114
    } else if unit == 0x0443 {
        115
    } else if unit == 0x0444 {
        116
    } else if unit == 0x0445 {
        117
    } else if unit == 0x0446 {
        118
    } else if unit == 0x0447 {
        119
    } else if unit == 0x0448 {
        120
    } else if unit == 0x0449 {
        121
    } else if unit == 0x044A {
        122
    } else if unit == 0x044B {
        123
    } else if unit == 0x044C {
        124
    } else if unit == 0x044D {
        125
    } else if unit == 0x044E {
        126
    } else if unit == 0x044F {
        127
    } else {
        128
    }
}

/// Position in `CP866_DATA` of code unit `unit`, or 128 where it does not occur.
#[verifier::opaque]
pub open spec fn cp866_byte_of(unit: u16) -> int {
    if unit == 0x0410 {
        0
    } else if unit == 0x0411 {
        1
    } else if unit == 0x0412 {
        2
    } else if unit == 0x0413 {
        3
    } else if unit == 0x0414 {
        4
    } else if unit == 0x0415 {
        5
    } else if unit == 0x0416 {
        6
    } else if unit == 0x0417 {
        7
    } else if unit == 0x0418 {
        8
    } else if unit == 0x0419 {
        9
    } else if unit == 0x041A {
        10
    } else if unit == 0x041B {
        11
    } else if unit == 0x041C {
        12
    } else if unit == 0x041D {
        13
    } else if unit == 0x041E {
        14
    } else if unit == 0x041F {
        15
    } else if unit == 0x0420 {
        16
    } else if unit == 0x0421 {
        17
    } else if unit == 0x0422 {
        18
    } else if unit == 0x0423 {
        19
    } else if unit == 0x0424 {
        20
    } else if unit == 0x0425 {
        21
    } else if unit == 0x0426 {
        22
    } else if unit == 0x0427 {
        23
    } else if unit == 0x0428 {
        24
    } else if unit == 0x0429 {
        25
    } else if unit == 0x042A {
        26
    } else if unit == 0x042B {
        27
    } else if unit == 0x042C {
        28
    } else if unit == 0x042D {
        29
    } else if unit == 0x042E {
        30
    } else if unit == 0x042F {
        31
    } else if unit == 0x0430 {
        32
    } else if unit == 0x0431 {
        33
    } else if unit == 0x0432 {
        34
    } else if unit == 0x0433 {
        35
    } else if unit == 0x0434 {
        36
    } else if unit == 0x0435 {
        37
    } else if unit == 0x0436 {
        38
    } else if unit == 0x0437 {
        39
    } else if unit == 0x0438 {
        40
    } else if unit == 0x0439 {
        41
    } else if unit == 0x043A {
        42
    } else if unit == 0x043B {
        43
    } else if unit == 0x043C {
        44
    } else if unit == 0x043D {
        45
    } else if unit == 0x043E {
        46
    } else if unit == 0x043F {
        47
    } else if unit == 0x2591 {
        48
    } else if unit == 0x2592 {
        49
    } else if unit == 0x2593 {
        50
    } else if unit == 0x2502 {
        51
    } else if unit == 0x2524 {
        52
    } else if unit == 0x2561 {
        53
    } else if unit == 0x2562 {
        54
    } else if unit == 0x2556 {
        55
    } else if unit == 0x2555 {
        56
    } else if unit == 0x2563 {
        57
    } else if unit == 0x2551 {
        58
    } else if unit == 0x2557 {
        59
    } else if unit == 0x255D {
        60
    } else if unit == 0x255C {
        61
    } else if unit == 0x255B {
        62
    } else if unit == 0x2510 {
        63
    } else if unit == 0x2514 {
        64
    } else if unit == 0x2534 {
        65
    } else if unit == 0x252C {
        66
    } else if unit == 0x251C {
        67
    } else if unit == 0x2500 {
        68
    } else if unit == 0x253C {
        69
    } else if unit == 0x255E {
        70
    } else if unit == 0x255F {
        71
    } else if unit == 0x255A {
        72
    } else if unit == 0x2554 {
        73
    } else if unit == 0x2569 {
        74
    } else if unit == 0x2566 {
        75
    } else if unit == 0x2560 {
        76
    } else if unit == 0x2550 {
        77
    } else if unit == 0x256C {
        78
    } else if unit == 0x2567 {
        79
    } else if unit == 0x2568 {
        80
    } else if unit == 0x2564 {
        81
    } else if unit == 0x2565 {
        82
    } else if unit == 0x2559 {
        83
    } else if unit == 0x2558 {
        84
    } else if unit == 0x2552 {
        85
    } else if unit == 0x2553 {
        86
    } else if unit == 0x256B {
        87
    } else if unit == 0x256A {
        88
    } else if unit == 0x2518 {
        89
    } else if unit == 0x250C {
        90
    } else if unit == 0x2588 {
        91
    } else if unit == 0x2584 {
        92
    } else if unit == 0x258C {
        93
    } else if unit == 0x2590 {
        94
    } else if unit == 0x2580 {
        95
    } else if unit == 0x0440 {
        96
    } else if unit == 0x0441 {
        97
    } else if unit == 0x0442 {
        98
    } else if unit == 0x0443 {
        99
    } else if unit == 0x0444 {
        100
    } else if unit == 0x0445 {
        101
    } else if unit == 0x0446 {
        102
    } else if unit == 0x0447 {
        103
    } else if unit == 0x0448 {
        104
    } else if unit == 0x0449 {
        105
    } else if unit == 0x044A {
        106
    } else if unit == 0x044B {
        107
    } else if unit == 0x044C {
        108
    } else if unit == 0x044D {
        109
    } else if unit == 0x044E {
        110
    } else if unit == 0x044F {
        111
    } else if unit == 0x0401 {
        112
    } else if unit == 0x0451 {
        113
    } else if unit == 0x0404 {
        114
    } else if unit == 0x0454 {
        115
    } else if unit == 0x0407 {
        116
    } else if unit == 0x0457 {
        117
    } else if unit == 0x040E {
        118
    } else if unit == 0x045E {
        119
    } else if unit == 0x00B0 {
        120
    } else if unit == 0x2219 {
        121
    } else if unit == 0x00B7 {
        122
    } else if unit == 0x221A {
        123
    } else if unit == 0x2116 {
        124
    } else if unit == 0x00A4 {
        125
    } else if unit == 0x25A0 {
        126
    } else if unit == 0x00A0 {
        127
    } else {
        128
    }
}

/// No two bytes of the upper half of windows-1251 stand for the same code unit.
pub proof fn lemma_win1251_distinct()
    ensures
        forall|i: int| 0 <= i < 128 ==> win1251_byte_of(#[trigger] WIN1251_DATA@[i]) == i,
        forall|i: int, j: int|
            0 <= i < 128 && 0 <= j < 128 && i != j ==> WIN1251_DATA@[i] != WIN1251_DATA@[j],
{
    reveal(win1251_byte_of);
    assert forall|i: int| 0 <= i < 128 implies win1251_byte_of(#[trigger] WIN1251_DATA@[i]) == i by {}
}

proof fn lemma_win1251_layout()
    ensures
        forall|k: int| 0 <= k < 64 ==> #[trigger] WIN1251_DATA@[64 + k] == 0x0410 + k,
        forall|k: int| 0 <= k < 128 ==> #[trigger] WIN1251_DATA@[k] >= 128,
{
}

/// No two bytes of the upper half of IBM866 stand for the same code unit.
pub proof fn lemma_cp866_distinct()
    ensures
        forall|i: int| 0 <= i < 128 ==> cp866_byte_of(#[trigger] CP866_DATA@[i]) == i,
        forall|i: int, j: int|
            0 <= i < 128 && 0 <= j < 128 && i != j ==> CP866_DATA@[i] != CP866_DATA@[j],
{
    reveal(cp866_byte_of);
    assert forall|i: int| 0 <= i < 128 implies cp866_byte_of(#[trigger] CP866_DATA@[i]) == i by {}
}

proof fn lemma_cp866_layout()
    ensures
        forall|k: int| 0 <= k < 16 ==> #[trigger] CP866_DATA@[96 + k] == 0x0440 + k,
        forall|k: int| 0 <= k < 128 ==> #[trigger] CP866_DATA@[k] >= 128,
{
}

/// An encoder for a code page whose lower half is ASCII and whose upper half is `table`, in which
/// the bytes `128 + run_byte_offset ..` hold `run_length` consecutive code units starting at
/// `run_bmp_offset`.
pub struct SingleByteEncoder {
    table: &'static [u16; 128],
    run_bmp_offset: usize,
    run_byte_offset: usize,
    run_length: usize,
}

/// The encoder for windows-1251.
pub fn win1251_encoder() -> (encoder: SingleByteEncoder)
    ensures
        encoder.wf(),
        encoder.upper_half() == WIN1251_DATA@,
{
    let encoder = SingleByteEncoder {
        table: &WIN1251_DATA,
        run_bmp_offset: 0x0410,
        run_byte_offset: 64,
        run_length: 64,
    };
    proof {
        lemma_win1251_layout();
        lemma_win1251_distinct();
        assert(encoder.wf());
    }
    encoder
}

/// The IBM866 encoder, as a value of the specification.
pub closed spec fn cp866_spec() -> SingleByteEncoder {
    SingleByteEncoder {
        table: &CP866_DATA,
        run_bmp_offset: 0x0440,
        run_byte_offset: 96,
        run_length: 16,
    }
}

/// The encoder for IBM866.
pub fn cp866_encoder() -> (encoder: SingleByteEncoder)
    ensures
        encoder.wf(),
        encoder == cp866_spec(),
        encoder.upper_half() == CP866_DATA@,
{
    let encoder = SingleByteEncoder {
        table: &CP866_DATA,
        run_bmp_offset: 0x0440,
        run_byte_offset: 96,
        run_length: 16,
    };
    proof {
        lemma_cp866_layout();
        lemma_cp866_distinct();
        assert(encoder.wf());
    }
    encoder
}

/// Index of the first element of `haystack` equal to `needle`.
pub fn position(haystack: &[u16], needle: u16) -> (found: Option<usize>)
    ensures
        match found {
            Some(p) => p < haystack@.len() && haystack@[p as int] == needle && forall|q: int|
                0 <= q < p ==> haystack@[q] != needle,
            None => forall|q: int| 0 <= q < haystack@.len() ==> haystack@[q] != needle,
        },
{
    let mut i: usize = 0;
    while i < haystack.len()
        invariant
            i <= haystack@.len(),
            forall|q: int| 0 <= q < i ==> haystack@[q] != needle,
        decreases haystack@.len() - i,
    {
        if haystack[i] == needle {
            return Some(i);
        }
        i += 1;
    }
    None
}

impl SingleByteEncoder {
    /// The code units of bytes 0x80..=0xFF.
    pub closed spec fn upper_half(self) -> Seq<u16> {
        self.table@
    }

    /// The code point that byte `byte` stands for.
    pub open spec fn decode(self, byte: u8) -> u32 {
        if byte < 128 {
            byte as u32
        } else {
            self.upper_half()[byte - 128] as u32
        }
    }

    /// The upper half lies outside ASCII, and the run really is a run of consecutive code units.
    pub closed spec fn wf(self) -> bool {
        &&& 32 <= self.run_byte_offset
        &&& self.run_byte_offset + self.run_length <= 128
        &&& self.run_bmp_offset + self.run_length <= 0x10000
        &&& forall|k: int|
            0 <= k < self.run_length ==> #[trigger] self.table@[self.run_byte_offset + k]
                == self.run_bmp_offset + k
        &&& forall|k: int| 0 <= k < 128 ==> #[trigger] self.table@[k] >= 128
        &&& forall|i: int, j: int|
            0 <= i < 128 && 0 <= j < 128 && i != j ==> self.table@[i] != self.table@[j]
    }

    /// The byte that stands for code point `unit`, if any does.
    pub open spec fn encoded(self, unit: u32) -> Option<u8> {
        if exists|b: u8| #[trigger] self.decode(b) == unit {
            Some(choose|b: u8| #[trigger] self.decode(b) == unit)
        } else {
            None
        }
    }

    /// No two bytes stand for the same code point.
    pub proof fn lemma_decode_injective(self, b1: u8, b2: u8)
        requires
            self.wf(),
            self.decode(b1) == self.decode(b2),
        ensures
            b1 == b2,
    {
        if b1 >= 128 && b2 >= 128 {
            assert(self.table@[b1 - 128] == self.table@[b2 - 128]);
        } else if b1 >= 128 {
            assert(self.table@[b1 - 128] >= 128);
        } else if b2 >= 128 {
            assert(self.table@[b2 - 128] >= 128);
        }
    }

    /// Encoding the code point that a byte stands for gives back that byte.
    pub proof fn lemma_encoded_decode(self, b: u8)
        requires
            self.wf(),
        ensures
            self.encoded(self.decode(b)) == Some(b),
    {
        let unit = self.decode(b);
        assert(self.decode(b) == unit);
        let c = choose|c: u8| #[trigger] self.decode(c) == unit;
        self.lemma_decode_injective(b, c);
    }

    /// The byte that stands for `code_unit` in this code page, if there is one.
    pub fn encode_char(&self, code_unit: char) -> (byte: Option<u8>)
        requires
            self.wf(),
        ensures
            byte == self.encoded(code_unit as u32),
            match byte {
                Some(b) => self.decode(b) == code_unit as u32,
                None => forall|b: u8| self.decode(b) != code_unit as u32,
            },
    {
        let result = self.encode_char_inner(code_unit);
        proof {
            if let Some(b) = result {
                self.lemma_encoded_decode(b);
            }
        }
        result
    }

    fn encode_char_inner(&self, code_unit: char) -> (byte: Option<u8>)
        requires
            self.wf(),
        ensures
            match byte {
                Some(b) => self.decode(b) == code_unit as u32,
                None => forall|b: u8| self.decode(b) != code_unit as u32,
            },
    {
        let code_unit = code_unit as u32;
        if code_unit > 0xffff {
            // Out of BMP. Single-byte encodings do not correspond to codepoints outside of BMP.
            assert forall|b: u8| self.decode(b) != code_unit by {
                if b >= 128 {
                    assert(self.table@[b - 128] <= 0xffff);
                }
            }
            return None;
        }
        let code_unit = code_unit as u16;
        if code_unit < 128 {
            // ASCII
            return Some(code_unit as u8);
        }
        let ghost table = self.table@;
        let ghost target = code_unit as u32;
        // Run of consecutive units
        let unit_as_usize = code_unit as usize;
        let offset = unit_as_usize.wrapping_sub(self.run_bmp_offset);
        if offset < self.run_length {
            let b = (128 + self.run_byte_offset + offset) as u8;
            assert(table[self.run_byte_offset + offset] == self.run_bmp_offset + offset);
            return Some(b);
        }
        assert forall|k: int| self.run_byte_offset <= k < self.run_byte_offset + self.run_length
            implies table[k] != code_unit by {
            assert(table[self.run_byte_offset + (k - self.run_byte_offset)] == self.run_bmp_offset + (k - self.run_byte_offset));
        }

        // Search after the run
        let tail_start = self.run_byte_offset + self.run_length;
        if let Some(pos) = position(&self.table[tail_start..128], code_unit) {
            return Some((128 + tail_start + pos) as u8);
        }

        if self.run_byte_offset >= 64 {
            // Search third quadrant before the run
            if let Some(pos) = position(&self.table[64..self.run_byte_offset], code_unit) {
                return Some(((128 + 64) + pos) as u8);
            }
            // Search second quadrant
            if let Some(pos) = position(&self.table[32..64], code_unit) {
                return Some(((128 + 32) + pos) as u8);
            }
        } else if let Some(pos) = position(&self.table[32..self.run_byte_offset], code_unit) {
            // Search second quadrant before the run
            return Some(((128 + 32) + pos) as u8);
        }
        // Search first quadrant
        if let Some(pos) = position(&self.table[0..32], code_unit) {
            return Some((128 + pos) as u8);
        }
        assert forall|b: u8| self.decode(b) != target by {
            if b >= 128 {
                let k = b - 128;
                if k >= tail_start {
                    assert(table.subrange(tail_start as int, 128)[k - tail_start] == table[k]);
                } else if k < 32 {
                    assert(table.subrange(0, 32)[k] == table[k]);
                } else if k < 64 {
                    assert(table.subrange(32, 64)[k - 32] == table[k] || table.subrange(32, self.run_byte_offset as int)[k - 32] == table[k]);
                } else if k < self.run_byte_offset {
                    assert(table.subrange(64, self.run_byte_offset as int)[k - 64] == table[k]);
                }
            }
        }
        None
    }
}

} // verus!
