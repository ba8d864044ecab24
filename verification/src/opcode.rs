use vstd::prelude::*;

verus! {

/// Header nibble of an instruction word: its top four bits.
pub open spec fn op_header(word: u16) -> u16 {
    word / 4096
}

/// First operand nibble (bits 11..8), the register index `x`.
pub open spec fn op_x(word: u16) -> u16 {
    (word / 256) % 16
}

/// Second operand nibble (bits 7..4), the register index `y`.
pub open spec fn op_y(word: u16) -> u16 {
    (word / 16) % 16
}

/// Low nibble (bits 3..0), the sub-selector `n`.
pub open spec fn op_n(word: u16) -> u16 {
    word % 16
}

/// The 8-bit immediate of an instruction word: its low byte.
pub open spec fn op_byte(word: u16) -> u8 {
    (word % 256) as u8
}

/// The 12-bit address immediate of an instruction word: its low three
/// nibbles.
pub open spec fn op_addr(word: u16) -> u16 {
    word % 4096
}

/// Every nibble of a word is below 16, and together the four nibbles carry
/// the whole word.
pub proof fn lemma_opcode_fields(word: u16)
    ensures
        op_header(word) < 16,
        op_x(word) < 16,
        op_y(word) < 16,
        op_n(word) < 16,
        op_header(word) * 4096 + op_x(word) * 256 + op_y(word) * 16 + op_n(word) == word,
        op_byte(word) == op_y(word) * 16 + op_n(word),
        op_addr(word) == op_x(word) * 256 + op_y(word) * 16 + op_n(word),
{
    assert(word / 4096 < 16 && (word / 256) % 16 < 16 && (word / 16) % 16 < 16 && word % 16 < 16)
        by (bit_vector);
    assert((word / 4096) * 4096 + ((word / 256) % 16) * 256 + ((word / 16) % 16) * 16 + word % 16
        == word) by (bit_vector);
    assert(word % 256 == ((word / 16) % 16) * 16 + word % 16) by (bit_vector);
    assert(word % 4096 == ((word / 256) % 16) * 256 + ((word / 16) % 16) * 16 + word % 16)
        by (bit_vector);
}

/// The word that encodes header `h` with operand nibbles `x`, `y`, `n`; the
/// inverse of decoding, used to state laws about whole instructions.
pub open spec fn encode(h: u16, x: u16, y: u16, n: u16) -> u16 {
    (h * 4096 + x * 256 + y * 16 + n) as u16
}

/// Decoding undoes `encode` whenever each field is a nibble.
pub proof fn lemma_decode_encode(h: u16, x: u16, y: u16, n: u16)
    requires
        h < 16,
        x < 16,
        y < 16,
        n < 16,
    ensures
        op_header(encode(h, x, y, n)) == h,
        op_x(encode(h, x, y, n)) == x,
        op_y(encode(h, x, y, n)) == y,
        op_n(encode(h, x, y, n)) == n,
        op_byte(encode(h, x, y, n)) == y * 16 + n,
        op_addr(encode(h, x, y, n)) == x * 256 + y * 16 + n,
{
    assert(h * 4096 + x * 256 + y * 16 + n < 65536);
    let w: u16 = encode(h, x, y, n);
    assert(w / 4096 == h && (w / 256) % 16 == x && (w / 16) % 16 == y && w % 16 == n && w % 256
        == y * 16 + n && w % 4096 == x * 256 + y * 16 + n) by (bit_vector)
        requires
            h < 16,
            x < 16,
            y < 16,
            n < 16,
            w == h * 4096 + x * 256 + y * 16 + n,
    ;
}

/// One decoded instruction word, split into its four 4-bit fields: the
/// header nibble and three operand nibbles. Any 16-bit word decodes; whether
/// the combination means anything is decided at dispatch.
pub struct Opcode {
    /// The header nibble.
    pub h1: u16,
    /// The first operand nibble, `x`.
    pub v1: u16,
    /// The second operand nibble, `y`.
    pub v2: u16,
    /// The low nibble, `n`.
    pub v3: u16,
}

impl Opcode {
    /// Split a word into its four nibbles.
    pub fn new(opcode: u16) -> (comps: Opcode)
        ensures
            comps.h1 == op_header(opcode),
            comps.v1 == op_x(opcode),
            comps.v2 == op_y(opcode),
            comps.v3 == op_n(opcode),
    {
        let h1 = (opcode >> 12) & 0xf;
        let v1 = (opcode >> 8) & 0xf;
        let v2 = (opcode >> 4) & 0xf;
        let v3 = opcode & 0xf;
        proof {
            assert((opcode >> 12) & 0xf == opcode / 4096) by (bit_vector);
            assert((opcode >> 8) & 0xf == (opcode / 256) % 16) by (bit_vector);
            assert((opcode >> 4) & 0xf == (opcode / 16) % 16) by (bit_vector);
            assert(opcode & 0xf == opcode % 16) by (bit_vector);
        }
        Opcode { h1, v1, v2, v3 }
    }
}

} // verus!
