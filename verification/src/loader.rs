//! Loading classifier images into the kernel: validation and the
//! session-local identity of each loaded program.

use vstd::prelude::*;
use crate::errors::LoadError;
use crate::point::copy_bytes;
use crate::transport::LoadReply;

verus! {

/// Mathematical value of a classifier image.
#[verifier::ext_equal]
pub struct ImageV {
    pub name: Seq<u8>,
    pub bytes: Seq<u8>,
}

/// A named, compiled classifier image, as handed in by the caller.
#[derive(Clone, Debug)]
pub struct ProgramImage {
    /// Name of the program inside the image.
    pub name: Vec<u8>,
    /// The compiled image itself.
    pub bytes: Vec<u8>,
}

impl View for ProgramImage {
    type V = ImageV;

    open spec fn view(&self) -> ImageV {
        ImageV { name: self.name@, bytes: self.bytes@ }
    }
}

/// An image that is not trivially malformed: it has a program name and a
/// nonempty body to hand to the kernel.
pub open spec fn image_wf(img: ImageV) -> bool {
    0 < img.name.len() && 0 < img.bytes.len()
}

/// Mathematical value of a loaded program.
#[verifier::ext_equal]
pub struct ProgV {
    pub id: u64,
    pub name: Seq<u8>,
}

/// A program the kernel accepted, valid only while the owning session is
/// alive. Each load yields an independent instance with a fresh id, even
/// for the same image.
#[derive(Debug)]
pub struct LoadedProgram {
    id: u64,
    name: Vec<u8>,
}

impl View for LoadedProgram {
    type V = ProgV;

    closed spec fn view(&self) -> ProgV {
        ProgV { id: self.id, name: self.name@ }
    }
}

impl LoadedProgram {
    /// The session-local id of this instance.
    pub fn id(&self) -> (r: u64)
        ensures
            r == self@.id,
    {
        self.id
    }

    /// The program name the instance was loaded under.
    pub fn name(&self) -> (r: &Vec<u8>)
        ensures
            r@ == self@.name,
    {
        &self.name
    }
}

/// What one load decides: the loader's next fresh id afterwards, and
/// either the id given to the new instance or the error. A malformed
/// image is rejected before anything reaches the kernel; an exhausted id
/// space counts as the kernel's program table refusing another entry.
pub open spec fn spec_load(next_id: u64, image_ok: bool, reply: LoadReply) -> (u64, Result<
    u64,
    LoadError,
>) {
    if !image_ok {
        (next_id, Err(LoadError::Invalid))
    } else if next_id == u64::MAX {
        (next_id, Err(LoadError::KernelRejected))
    } else {
        match reply {
            LoadReply::Loaded => ((next_id + 1) as u64, Ok(next_id)),
            LoadReply::Rejected => (next_id, Err(LoadError::KernelRejected)),
        }
    }
}

/// Validates images and hands out session-local program ids, one per
/// successful load.
pub struct ProgramLoader {
    next_id: u64,
}

impl View for ProgramLoader {
    type V = u64;

    /// The id the next successful load will use.
    closed spec fn view(&self) -> u64 {
        self.next_id
    }
}

impl ProgramLoader {
    /// A loader for a fresh session.
    pub fn new() -> (r: Self)
        ensures
            r@ == 0u64,
    {
        ProgramLoader { next_id: 0 }
    }

    /// Checks that an image is not trivially malformed.
    pub fn validate(image: &ProgramImage) -> (r: bool)
        ensures
            r == image_wf(image@),
    {
        image.name.len() > 0 && image.bytes.len() > 0
    }

    /// Completes one load: `reply` is the kernel's verdict on the image,
    /// as the driver reports it. A malformed image yields
    /// `LoadError::Invalid` (and the driver must not have called the
    /// kernel for it); a kernel rejection yields
    /// `LoadError::KernelRejected`; on success the returned instance
    /// carries a fresh id and the image's program name.
    pub fn load(&mut self, image: &ProgramImage, reply: LoadReply) -> (r: Result<
        LoadedProgram,
        LoadError,
    >)
        ensures
            final(self)@ == spec_load(old(self)@, image_wf(image@), reply).0,
            (match r {
                Ok(p) => Ok(p@.id),
                Err(e) => Err(e),
            }) == spec_load(old(self)@, image_wf(image@), reply).1,
            r matches Ok(p) ==> p@.name == image@.name,
    {
        if !Self::validate(image) {
            return Err(LoadError::Invalid);
        }
        if self.next_id == u64::MAX {
            return Err(LoadError::KernelRejected);
        }
        match reply {
            LoadReply::Loaded => {
                let id = self.next_id;
                self.next_id = self.next_id + 1;
                Ok(LoadedProgram { id, name: copy_bytes(&image.name) })
            },
            LoadReply::Rejected => Err(LoadError::KernelRejected),
        }
    }
}

} // verus!
