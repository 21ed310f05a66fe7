//! Sprites ("objects") as the object attribute memory describes them.
use vstd::prelude::*;

use crate::memory::le16;

verus! {

#[derive(Debug, Clone, Copy, PartialEq, Eq, Structural)]
pub enum ObjMode {
    Normal,
    SemiTransparent,
    ObjWindow,
    Invalid,
}

#[derive(Debug, Clone, Copy, PartialEq, Eq, Structural)]
pub enum ObjShape {
    Square,
    Horizontal,
    Vertical,
    Invalid,
}

#[derive(Debug, Clone, Copy, PartialEq, Eq, Structural)]
pub enum ObjPriority {
    Max,
    High,
    Low,
    Min,
}

#[derive(Debug, Clone, Copy, PartialEq, Eq, Structural)]
pub enum ObjSize {
    Small,
    Normal,
    Big,
    Huge,
}

impl ObjMode {
    pub open spec fn spec_from(value: u16) -> Result<ObjMode, u16> {
        if value == 0 {
            Ok(ObjMode::Normal)
        } else if value == 1 {
            Ok(ObjMode::SemiTransparent)
        } else if value == 2 {
            Ok(ObjMode::ObjWindow)
        } else if value == 3 {
            Ok(ObjMode::Invalid)
        } else {
            Err(value)
        }
    }

    /// The mode with the given two-bit number; the value back above 3.
    pub fn try_from_u16(value: u16) -> (r: Result<ObjMode, u16>)
        ensures
            r == Self::spec_from(value),
    {
        if value == 0 {
            Ok(ObjMode::Normal)
        } else if value == 1 {
            Ok(ObjMode::SemiTransparent)
        } else if value == 2 {
            Ok(ObjMode::ObjWindow)
        } else if value == 3 {
            Ok(ObjMode::Invalid)
        } else {
            Err(value)
        }
    }
}

impl ObjShape {
    pub open spec fn spec_from(value: u16) -> Result<ObjShape, u16> {
        if value == 0 {
            Ok(ObjShape::Square)
        } else if value == 1 {
            Ok(ObjShape::Horizontal)
        } else if value == 2 {
            Ok(ObjShape::Vertical)
        } else if value == 3 {
            Ok(ObjShape::Invalid)
        } else {
            Err(value)
        }
    }

    /// The shape with the given two-bit number; the value back above 3.
    pub fn try_from_u16(value: u16) -> (r: Result<ObjShape, u16>)
        ensures
            r == Self::spec_from(value),
    {
        if value == 0 {
            Ok(ObjShape::Square)
        } else if value == 1 {
            Ok(ObjShape::Horizontal)
        } else if value == 2 {
            Ok(ObjShape::Vertical)
        } else if value == 3 {
            Ok(ObjShape::Invalid)
        } else {
            Err(value)
        }
    }
}

impl ObjPriority {
    pub open spec fn spec_from(value: u16) -> Result<ObjPriority, u16> {
        if value == 0 {
            Ok(ObjPriority::Max)
        } else if value == 1 {
            Ok(ObjPriority::High)
        } else if value == 2 {
            Ok(ObjPriority::Low)
        } else if value == 3 {
            Ok(ObjPriority::Min)
        } else {
            Err(value)
        }
    }

    /// The priority with the given two-bit number; the value back above 3.
    pub fn try_from_u16(value: u16) -> (r: Result<ObjPriority, u16>)
        ensures
            r == Self::spec_from(value),
    {
        if value == 0 {
            Ok(ObjPriority::Max)
        } else if value == 1 {
            Ok(ObjPriority::High)
        } else if value == 2 {
            Ok(ObjPriority::Low)
        } else if value == 3 {
            Ok(ObjPriority::Min)
        } else {
            Err(value)
        }
    }
}

impl ObjSize {
    pub open spec fn spec_from(value: u16) -> Result<ObjSize, u16> {
        if value == 0 {
            Ok(ObjSize::Small)
        } else if value == 1 {
            Ok(ObjSize::Normal)
        } else if value == 2 {
            Ok(ObjSize::Big)
        } else if value == 3 {
            Ok(ObjSize::Huge)
        } else {
            Err(value)
        }
    }

    /// The size with the given two-bit number; the value back above 3.
    pub fn try_from_u16(value: u16) -> (r: Result<ObjSize, u16>)
        ensures
            r == Self::spec_from(value),
    {
        if value == 0 {
            Ok(ObjSize::Small)
        } else if value == 1 {
            Ok(ObjSize::Normal)
        } else if value == 2 {
            Ok(ObjSize::Big)
        } else if value == 3 {
            Ok(ObjSize::Huge)
        } else {
            Err(value)
        }
    }
}

#[derive(Debug, Clone, Copy, PartialEq, Eq, Structural)]
pub struct RotationScaleIndex(pub u8);

#[derive(Debug, Clone, Copy, PartialEq, Eq, Structural)]
pub struct PaletteNumber(pub u8);

/// One sprite.
#[derive(Debug, Clone, Copy, PartialEq, Eq, Structural)]
pub struct Obj {
    pub y: i8,
    pub x: i16,
    pub enabled: bool,
    pub priority: ObjPriority,
    pub doubled_size: bool,
    pub shape: ObjShape,
    pub size: ObjSize,
    pub mode: ObjMode,
    pub mosaic: bool,
    pub rotation_scale_index: Option<RotationScaleIndex>,
    pub horizontal_flip: bool,
    pub vertical_flip: bool,
    pub tile_number: u32,
    pub palette_number: Option<PaletteNumber>,
}

/// The sprite that the three attribute half words describe. With the
/// rotation/scaling flag (bit 4 of the first) set, the sprite is always
/// shown, bit 5 doubles its size, and the rotation index is the low byte
/// of `attribute_2 & 0x3f00`; otherwise bit 5 enables it and bits 14 and 15
/// of the second attribute flip it.
pub open spec fn obj_of(attribute_1: u16, attribute_2: u16, attribute_3: u16) -> Obj {
    let affine = attribute_1 & 0x10 != 0;
    let x9 = attribute_2 & 0x1ff;
    Obj {
        y: (attribute_1 as u8) as i8,
        x: (if x9 & 0x100 != 0 {
            x9 | 0xff00
        } else {
            x9
        }) as i16,
        enabled: affine || attribute_1 & 0x20 != 0,
        priority: ObjPriority::spec_from((attribute_3 & 0xc00) >> 10u16).unwrap(),
        doubled_size: affine && attribute_1 & 0x20 != 0,
        shape: ObjShape::spec_from((attribute_1 & 0xc000) >> 14u16).unwrap(),
        size: ObjSize::spec_from((attribute_2 & 0xc000) >> 14u16).unwrap(),
        mode: ObjMode::spec_from((attribute_1 & 0xc00) >> 10u16).unwrap(),
        mosaic: attribute_2 & 0x1000 != 0,
        rotation_scale_index: if affine {
            Some(RotationScaleIndex((attribute_2 & 0x3f00) as u8))
        } else {
            None
        },
        horizontal_flip: !affine && attribute_2 & 0x4000 != 0,
        vertical_flip: !affine && attribute_2 & 0x8000 != 0,
        tile_number: (attribute_3 & 0x3ff) as u32,
        palette_number: if attribute_1 & 0x200 != 0 {
            Some(PaletteNumber(((attribute_3 & 0xf000) >> 12u16) as u8))
        } else {
            None
        },
    }
}

impl Obj {
    /// Width and height in pixels; none for the invalid shape.
    pub open spec fn spec_size(self) -> Option<(usize, usize)> {
        match (self.size, self.shape) {
            (ObjSize::Small, ObjShape::Square) => Some((8, 8)),
            (ObjSize::Small, ObjShape::Horizontal) => Some((16, 8)),
            (ObjSize::Small, ObjShape::Vertical) => Some((8, 16)),
            (ObjSize::Normal, ObjShape::Square) => Some((16, 16)),
            (ObjSize::Normal, ObjShape::Horizontal) => Some((32, 8)),
            (ObjSize::Normal, ObjShape::Vertical) => Some((8, 32)),
            (ObjSize::Big, ObjShape::Square) => Some((32, 32)),
            (ObjSize::Big, ObjShape::Horizontal) => Some((32, 16)),
            (ObjSize::Big, ObjShape::Vertical) => Some((16, 32)),
            (ObjSize::Huge, ObjShape::Square) => Some((64, 64)),
            (ObjSize::Huge, ObjShape::Horizontal) => Some((64, 32)),
            (ObjSize::Huge, ObjShape::Vertical) => Some((32, 64)),
            (_, ObjShape::Invalid) => None,
        }
    }

    pub fn size(&self) -> (r: Option<(usize, usize)>)
        ensures
            r == self.spec_size(),
    {
        match (self.size, self.shape) {
            (ObjSize::Small, ObjShape::Square) => Some((8, 8)),
            (ObjSize::Small, ObjShape::Horizontal) => Some((16, 8)),
            (ObjSize::Small, ObjShape::Vertical) => Some((8, 16)),
            (ObjSize::Normal, ObjShape::Square) => Some((16, 16)),
            (ObjSize::Normal, ObjShape::Horizontal) => Some((32, 8)),
            (ObjSize::Normal, ObjShape::Vertical) => Some((8, 32)),
            (ObjSize::Big, ObjShape::Square) => Some((32, 32)),
            (ObjSize::Big, ObjShape::Horizontal) => Some((32, 16)),
            (ObjSize::Big, ObjShape::Vertical) => Some((16, 32)),
            (ObjSize::Huge, ObjShape::Square) => Some((64, 64)),
            (ObjSize::Huge, ObjShape::Horizontal) => Some((64, 32)),
            (ObjSize::Huge, ObjShape::Vertical) => Some((32, 64)),
            (_, ObjShape::Invalid) => None,
        }
    }

    /// The sprite described by the first six bytes of an attribute entry.
    pub fn from_obj_ram(bytes: &[u8]) -> (r: Obj)
        requires
            bytes@.len() >= 6,
        ensures
            r == obj_of(
                le16(bytes@[0], bytes@[1]),
                le16(bytes@[2], bytes@[3]),
                le16(bytes@[4], bytes@[5]),
            ),
    {
        let attribute_1 = (bytes[0] as u16) | ((bytes[1] as u16) << 8u16);
        let attribute_2 = (bytes[2] as u16) | ((bytes[3] as u16) << 8u16);
        let attribute_3 = (bytes[4] as u16) | ((bytes[5] as u16) << 8u16);
        let y = attribute_1 as u8 as i8;
        let affine = attribute_1 & 0x10 > 0;
        let (doubled_size, enabled, rotation_scale_index, horizontal_flip, vertical_flip) =
            if affine {
            let index = attribute_2 & 0x3f00;
            (attribute_1 & 0x20 > 0, true, Some(RotationScaleIndex(index as u8)), false, false)
        } else {
            (
                false,
                attribute_1 & 0x20 > 0,
                None,
                attribute_2 & 0x4000 > 0,
                attribute_2 & 0x8000 > 0,
            )
        };
        let x9 = attribute_2 & 0x1ff;
        let x = if x9 & 0x100 > 0 {
            x9 | 0xff00
        } else {
            x9
        } as i16;
        let p = (attribute_3 & 0xc00) >> 10u16;
        let s = (attribute_1 & 0xc000) >> 14u16;
        let z = (attribute_2 & 0xc000) >> 14u16;
        let m = (attribute_1 & 0xc00) >> 10u16;
        assert(p < 4 && s < 4 && z < 4 && m < 4) by (bit_vector)
            requires
                p == (attribute_3 & 0xc00) >> 10u16,
                s == (attribute_1 & 0xc000) >> 14u16,
                z == (attribute_2 & 0xc000) >> 14u16,
                m == (attribute_1 & 0xc00) >> 10u16,
        ;
        let priority = match ObjPriority::try_from_u16(p) {
            Ok(v) => v,
            Err(_) => ObjPriority::Min,
        };
        let shape = match ObjShape::try_from_u16(s) {
            Ok(v) => v,
            Err(_) => ObjShape::Invalid,
        };
        let size = match ObjSize::try_from_u16(z) {
            Ok(v) => v,
            Err(_) => ObjSize::Huge,
        };
        let mode = match ObjMode::try_from_u16(m) {
            Ok(v) => v,
            Err(_) => ObjMode::Invalid,
        };
        let mosaic = (attribute_2 & 0x1000) > 0;
        let palette_number = if (attribute_1 & 0x200) > 0 {
            let palette = (attribute_3 & 0xf000) >> 12u16;
            Some(PaletteNumber(palette as u8))
        } else {
            None
        };
        let tile_number = attribute_3 & 0x3ff;
        Obj {
            y,
            x,
            enabled,
            priority,
            doubled_size,
            shape,
            size,
            mode,
            mosaic,
            rotation_scale_index,
            horizontal_flip,
            vertical_flip,
            tile_number: tile_number as u32,
            palette_number,
        }
    }

    /// The first tile: in 256-colour mode (no palette bank) tile numbers
    /// count 32-byte units, so the index is halved.
    pub fn tile_number(&self) -> (r: u32)
        ensures
            r == if self.palette_number is Some {
                self.tile_number
            } else {
                self.tile_number >> 1u32
            },
    {
        if self.palette_number.is_some() {
            self.tile_number
        } else {
            self.tile_number >> 1u32
        }
    }

    pub fn is_enabled(&self) -> (r: bool)
        ensures
            r == self.enabled,
    {
        self.enabled
    }

    pub fn x(&self) -> (r: i16)
        ensures
            r == self.x,
    {
        self.x
    }

    /// The top edge, sign-extended from eight bits.
    pub fn y(&self) -> (r: i16)
        ensures
            r == self.y as i16,
    {
        self.y as i16
    }
}

} // verus!
