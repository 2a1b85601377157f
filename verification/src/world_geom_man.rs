//! Descriptions of the geometry objects of the host, and the asset name of
//! a request to spawn geometry.

use vstd::prelude::*;
use vstd::string::StringSliceAdditionalSpecFns;

verus! {

/// A block of the placement data of a geometry instance whose meaning is
/// not known.
#[derive(Clone, Copy, Debug)]
pub struct CSWorldGeomInfoUnk {
    unk0: u32,
    unk4: u32,
    unk8: u32,
    unkc: u32,
    unk10: u32,
    unk14: u32,
    unk18: u32,
    unk1c: u32,
    unk20: usize,
    unk28: [u8; 0x38],
    unk60: usize,
}

/// How a part of a map is drawn.
#[derive(Clone, Copy, Debug)]
pub struct CSMsbParts {
    pub vfptr: usize,
    pub draw_flags: u32,
    unkc: u32,
    unk10: usize,
    pub msb_part: usize,
    unk20: [u8; 0x30],
}

/// How a geometry part of a map is drawn.
#[derive(Clone, Copy, Debug)]
pub struct CSMsbPartsGeom {
    pub msb_parts: CSMsbParts,
}

/// The number of code units that the asset name of a request can hold.
pub const ASSET_UNITS: usize = 0x20;

/// A request to spawn geometry, as the host hands it from the code that
/// reads maps to the code that constructs the instance. Position, rotation
/// and scale are held as the bit patterns of their single-precision values.
#[derive(Clone, Copy, Debug)]
pub struct GeometrySpawnRequest {
    /// The name of the asset, such as "AEG020_370", one character in each
    /// code unit, ended by a zero where it is shorter than the field.
    pub asset_string: [u16; 0x20],
    pub unk0x40: u32,
    pub unk0x44: u32,
    pub asset_string_ptr: u64,
    pub unk0x50: u32,
    pub unk0x54: u32,
    pub unk0x58: u32,
    pub unk0x5c: u32,
    pub unk0x60: u32,
    pub unk0x64: u32,
    pub unk0x68: u32,
    pub unk0x6c: u32,
    pub pos_x: u32,
    pub pos_y: u32,
    pub pos_z: u32,
    pub rot_x: u32,
    pub rot_y: u32,
    pub rot_z: u32,
    pub scale_x: u32,
    pub scale_y: u32,
    pub scale_z: u32,
    pub unk0x94: [u8; 0x6C],
}

/// The low byte of a code unit.
pub open spec fn low_byte(unit: u16) -> u8 {
    (unit & 0xFF) as u8
}

/// The number of code units before the first whose low byte is zero; the
/// number of all code units where there is none.
pub open spec fn asset_len(units: Seq<u16>) -> nat
    decreases units.len(),
{
    if units.len() == 0 || low_byte(units[0]) == 0 {
        0
    } else {
        1 + asset_len(units.drop_first())
    }
}

/// The asset name that code units hold: the low byte of each code unit
/// before the first whose low byte is zero, read as a character.
pub open spec fn asset_text(units: Seq<u16>) -> Seq<char> {
    Seq::new(asset_len(units), |i: int| low_byte(units[i]) as char)
}

proof fn lemma_asset_len(units: Seq<u16>, n: int)
    requires
        0 <= n <= units.len(),
        forall|i: int| 0 <= i < n ==> low_byte(#[trigger] units[i]) != 0,
        n == units.len() || low_byte(units[n]) == 0,
    ensures
        asset_len(units) == n,
    decreases n,
{
    if n > 0 {
        let rest = units.drop_first();
        assert forall|i: int| 0 <= i < n - 1 implies low_byte(#[trigger] rest[i]) != 0 by {
            assert(rest[i] == units[i + 1]);
        }
        lemma_asset_len(rest, n - 1);
    }
}

/// Calls `String::push`, which appends the character.
#[verifier::external_body]
fn push_char(text: &mut String, c: char)
    ensures
        final(text)@ == old(text)@.push(c),
{
    text.push(c)
}

impl GeometrySpawnRequest {
    /// The name of the asset.
    pub fn asset(&self) -> (result: String)
        ensures
            result@ == asset_text(self.asset_string@),
    {
        let mut result = String::new();
        let mut i: usize = 0;
        while i < 0x20
            invariant
                0 <= i <= 0x20,
                self.asset_string@.len() == 0x20,
                forall|j: int| 0 <= j < i ==> low_byte(#[trigger] self.asset_string@[j]) != 0,
                result@ == Seq::new(i as nat, |j: int| low_byte(self.asset_string@[j]) as char),
            decreases 0x20 - i,
        {
            let c: u8 = (self.asset_string[i] & 0xFF) as u8;
            if c == 0 {
                proof {
                    lemma_asset_len(self.asset_string@, i as int);
                }
                return result;
            }
            push_char(&mut result, c as char);
            proof {
                assert(result@ =~= Seq::new(
                    (i + 1) as nat,
                    |j: int| low_byte(self.asset_string@[j]) as char,
                ));
            }
            i = i + 1;
        }
        proof {
            lemma_asset_len(self.asset_string@, 0x20);
        }
        result
    }

    /// Writes the bytes of a name over the start of the asset name, one
    /// byte to each code unit. The code units behind the name stay as they
    /// are. The name must fit in the field.
    pub fn set_asset(&mut self, asset: &str)
        requires
            asset.spec_bytes().len() <= 0x20,
        ensures
            final(self).asset_string@ == Seq::new(
                0x20,
                |i: int|
                    if i < asset.spec_bytes().len() {
                        asset.spec_bytes()[i] as u16
                    } else {
                        old(self).asset_string@[i]
                    },
            ),
            *final(self) == (GeometrySpawnRequest {
                asset_string: final(self).asset_string,
                ..*old(self)
            }),
    {
        let bytes = asset.as_bytes();
        let mut i: usize = 0;
        while i < bytes.len()
            invariant
                0 <= i <= bytes@.len() <= 0x20,
                bytes@ == asset.spec_bytes(),
                self.asset_string@ =~= Seq::new(
                    0x20,
                    |j: int|
                        if j < i {
                            bytes@[j] as u16
                        } else {
                            old(self).asset_string@[j]
                        },
                ),
                *self == (GeometrySpawnRequest { asset_string: self.asset_string, ..*old(self) }),
            decreases bytes@.len() - i,
        {
            self.asset_string[i] = bytes[i] as u16;
            i = i + 1;
        }
    }
}

} // verus!
