//! The header that starts every firmware image.

use crate::bytes::{le16, le32, push_u16, push_u32};
use vstd::prelude::*;

verus! {

/// The size of an image header, in bytes.
pub const HDR_SIZE: usize = 32;

/// The version of an image.
#[derive(Clone, Copy, Debug, PartialEq, Eq, Structural)]
pub struct ImageVersion {
    pub major: u8,
    pub minor: u8,
    pub revision: u16,
    pub build_num: u32,
}

/// The image header.
#[derive(Clone, Copy, Debug, PartialEq, Eq, Structural)]
pub struct ImageHeader {
    pub magic: u32,
    pub load_addr: u32,
    pub hdr_size: u16,
    pub protect_tlv_size: u16,
    pub img_size: u32,
    pub flags: u32,
    pub ver: ImageVersion,
    pub _pad2: u32,
}

impl ImageVersion {
    /// The eight bytes of the version as they lie in a header.
    pub open spec fn spec_bytes(self) -> Seq<u8> {
        seq![self.major, self.minor] + le16(self.revision) + le32(self.build_num)
    }

    /// Appends the eight bytes of the version as they lie in a header.
    pub fn write_to(&self, buf: &mut Vec<u8>)
        ensures
            final(buf)@ == old(buf)@ + self.spec_bytes(),
    {
        buf.push(self.major);
        buf.push(self.minor);
        push_u16(buf, self.revision);
        push_u32(buf, self.build_num);
        assert(buf@ =~= old(buf)@ + self.spec_bytes());
    }
}

impl ImageHeader {
    /// The bytes of the header as they lie in flash: every field in order,
    /// each with its low byte first.
    pub open spec fn spec_bytes(self) -> Seq<u8> {
        le32(self.magic) + le32(self.load_addr) + le16(self.hdr_size) + le16(self.protect_tlv_size)
            + le32(self.img_size) + le32(self.flags) + self.ver.spec_bytes() + le32(self._pad2)
    }

    /// The bytes of the header as they lie in flash.
    pub fn as_raw(&self) -> (res: Vec<u8>)
        ensures
            res@ == self.spec_bytes(),
            res@.len() == HDR_SIZE,
    {
        let mut buf: Vec<u8> = Vec::new();
        push_u32(&mut buf, self.magic);
        push_u32(&mut buf, self.load_addr);
        push_u16(&mut buf, self.hdr_size);
        push_u16(&mut buf, self.protect_tlv_size);
        push_u32(&mut buf, self.img_size);
        push_u32(&mut buf, self.flags);
        self.ver.write_to(&mut buf);
        push_u32(&mut buf, self._pad2);
        assert(buf@ =~= self.spec_bytes());
        buf
    }
}

} // verus!
