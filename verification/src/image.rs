//! The image of the host process: its base address, its sections, and the
//! translation of relative virtual addresses.

use pelite::pe64::Pe;
use pelite::pe64::PeObject;
use pelite::pe64::PeView;
use vstd::prelude::*;

verus! {

/// A view of `pelite` into a mapped image, opaque to the verifier.
#[verifier::external_type_specification]
#[verifier::external_body]
pub struct ExPeView<'a>(pelite::pe64::PeView<'a>);

/// The number of bytes that a view spans.
pub uninterp spec fn view_len(view: PeView<'_>) -> nat;

/// The base address that the headers of a view record.
pub uninterp spec fn view_base(view: PeView<'_>) -> u64;

/// The size of the optional header that the file header of a view records:
/// the distance from the optional header to the section headers.
pub uninterp spec fn view_optional_size(view: PeView<'_>) -> u16;

/// The virtual range, start and exclusive end, of the section that a view
/// finds under a name; `None` where it finds no such section.
pub uninterp spec fn view_section(view: PeView<'_>, name: Seq<char>) -> Option<(u32, u32)>;

/// Calls `PeObject::image` and takes the length of the slice.
#[verifier::external_body]
fn mapped_len(view: &PeView<'_>) -> (n: usize)
    ensures
        n == view_len(*view),
{
    view.image().len()
}

/// Calls `Pe::optional_header` and reads its `ImageBase`.
#[verifier::external_body]
fn recorded_base(view: &PeView<'_>) -> (base: u64)
    ensures
        base == view_base(*view),
{
    view.optional_header().ImageBase
}

/// Calls `Pe::file_header` and reads its `SizeOfOptionalHeader`.
#[verifier::external_body]
fn optional_header_size(view: &PeView<'_>) -> (size: u16)
    ensures
        size == view_optional_size(*view),
{
    view.file_header().SizeOfOptionalHeader
}

/// Calls `Pe::section_headers`, `SectionHeaders::by_name` on the headers,
/// and `SectionHeader::virtual_range` on the header found. The section
/// headers are read as a slice of records of four-byte fields that starts
/// behind the optional header, so the size of the optional header must be
/// a multiple of four.
#[verifier::external_body]
fn find_section(view: &PeView<'_>, name: &str) -> (r: Option<(u32, u32)>)
    requires
        view_optional_size(*view) % 4 == 0,
    ensures
        r == view_section(*view, name@),
{
    view.section_headers().by_name(name).map(|header| header.virtual_range()).map(
        |range| (range.start, range.end),
    )
}

/// The reason an image cannot be used.
#[derive(Clone, Copy, Debug, PartialEq, Eq, Structural)]
pub enum ImageError {
    /// The module is not mapped, or is not mapped as an image can be.
    NotLoaded,
    /// The image has no section of the name asked for.
    SectionMissing,
}

/// A range of relative virtual addresses, the end excluded.
#[derive(Clone, Copy, Debug, PartialEq, Eq, Structural)]
pub struct VirtualRange {
    pub start: u32,
    pub end: u32,
}

impl VirtualRange {
    /// The relative virtual address lies in the range.
    pub open spec fn holds(&self, rva: u32) -> bool {
        self.start <= rva < self.end
    }

    /// Tells whether a relative virtual address lies in the range.
    pub fn contains(&self, rva: u32) -> (inside: bool)
        ensures
            inside == self.holds(rva),
    {
        self.start <= rva && rva < self.end
    }
}

/// The range that a pair of start and exclusive end describes.
pub open spec fn range_of(bounds: (u32, u32)) -> VirtualRange {
    VirtualRange { start: bounds.0, end: bounds.1 }
}

/// A section of an image: its name and its virtual range.
#[derive(Clone, Debug, PartialEq, Eq)]
pub struct Section {
    pub name: String,
    pub range: VirtualRange,
}

impl Section {
    /// Tells whether a relative virtual address lies in the section.
    pub fn contains(&self, rva: u32) -> (inside: bool)
        ensures
            inside == self.range.holds(rva),
    {
        self.range.contains(rva)
    }
}

/// The largest number of bytes that relative virtual addresses can reach.
pub const MAX_IMAGE_LEN: usize = 0xffff_ffff;

/// The image of the host process.
#[derive(Clone, Copy)]
pub struct Image<'a> {
    view: PeView<'a>,
    base: u64,
}

impl<'a> Image<'a> {
    /// The view behind the image.
    pub closed spec fn mapped(&self) -> PeView<'a> {
        self.view
    }

    /// The address at which the image is mapped.
    pub closed spec fn base_address(&self) -> u64 {
        self.base
    }

    /// A view can serve as an image where every relative virtual address
    /// reaches into it without wrapping round the address space, and where
    /// its section headers start on a multiple of four bytes behind the
    /// optional header.
    pub open spec fn usable(view: PeView<'a>) -> bool {
        &&& view_len(view) <= MAX_IMAGE_LEN
        &&& view_base(view) + 0xffff_ffff <= u64::MAX
        &&& view_optional_size(view) % 4 == 0
    }

    /// The image holds the base address of its view, and its view is usable.
    pub open spec fn wf(&self) -> bool {
        &&& self.base_address() == view_base(self.mapped())
        &&& Self::usable(self.mapped())
    }

    /// Takes a view of a mapped module as the image. A view that spans more
    /// than relative virtual addresses can reach, whose address space would
    /// wrap round, or whose section headers do not start on a multiple of
    /// four bytes behind the optional header, is refused as not loaded. The
    /// view must be one of a module as the system maps it, or one whose
    /// headers `pelite` has checked: the image reads the headers through
    /// it. The bytes of the view are taken to stay as they are for as long
    /// as the image is used.
    pub fn from_view(view: PeView<'a>) -> (r: Result<Image<'a>, ImageError>)
        ensures
            r is Ok <==> Self::usable(view),
            r matches Ok(image) ==> image.wf() && image.mapped() == view,
            r matches Err(e) ==> e == ImageError::NotLoaded,
    {
        let len = mapped_len(&view);
        let base = recorded_base(&view);
        let optional = optional_header_size(&view);
        if len > MAX_IMAGE_LEN || base > u64::MAX - 0xffff_ffff || optional % 4 != 0 {
            Err(ImageError::NotLoaded)
        } else {
            Ok(Image { view, base })
        }
    }

    /// The address at which the image is mapped.
    pub fn base(&self) -> (base: u64)
        ensures
            base == self.base_address(),
    {
        self.base
    }

    pub(crate) fn raw(&self) -> (view: &PeView<'a>)
        ensures
            *view == self.mapped(),
    {
        &self.view
    }

    /// The number of bytes of the image.
    pub fn len(&self) -> (n: usize)
        ensures
            n == view_len(self.mapped()),
    {
        mapped_len(&self.view)
    }

    /// The section of this name, if the image has one.
    pub fn section(&self, name: &str) -> (r: Option<Section>)
        requires
            self.wf(),
        ensures
            match view_section(self.mapped(), name@) {
                Some(bounds) => r matches Some(section) && section.name@ == name@
                    && section.range == range_of(bounds),
                None => r is None,
            },
    {
        match find_section(&self.view, name) {
            Some((start, end)) => Some(
                Section { name: name.to_owned(), range: VirtualRange { start, end } },
            ),
            None => None,
        }
    }

    /// The section of this name, or `SectionMissing`.
    pub fn require_section(&self, name: &str) -> (r: Result<Section, ImageError>)
        requires
            self.wf(),
        ensures
            match view_section(self.mapped(), name@) {
                Some(bounds) => r matches Ok(section) && section.name@ == name@
                    && section.range == range_of(bounds),
                None => r == Err::<Section, ImageError>(ImageError::SectionMissing),
            },
    {
        match self.section(name) {
            Some(section) => Ok(section),
            None => Err(ImageError::SectionMissing),
        }
    }

    /// The absolute address of a relative virtual address. The address is
    /// not held against the bounds of the image or of any section.
    pub fn rva_to_absolute(&self, rva: u32) -> (address: u64)
        requires
            self.wf(),
        ensures
            address == self.base_address() + rva,
    {
        self.base + rva as u64
    }
}

} // verus!
