//! The logic for a KVM worker in the [`Init`] state.

use vstd::prelude::*;

use crate::args::Kvm;
use crate::encoding::{text_from_utf8_lossy, utf8_lossy};
use crate::error::{Error, ErrorView};
use crate::models::{CommandOutput, Image};
use crate::os_detector::GuestOs;
use crate::paths::{join, joined, with_extension, with_extension_of};
use crate::state::{Init, KvmWorkerState, Overlayed};
use crate::text::{join2, join3, join5, texts, to_owned};

verus! {

/// The path of a golden file of an image: `<GOLDEN_DIR>/<GROUP>/<IMAGE>/<IMAGE>.<EXTENSION>`,
/// also where the name of the image holds a dot.
pub open spec fn golden_path_of(golden_dir: Seq<char>, image: Image, extension: Seq<char>) -> Seq<
    char,
> {
    joined(joined(joined(golden_dir, image.group@), image.name@), image.name@) + "."@ + extension
}

/// The path of a golden file of an image.
///
/// * `golden_dir` - The path to the base golden directory
/// * `image` - The image information
/// * `extension` - The extension of the file
pub fn golden_path(golden_dir: &str, image: &Image, extension: &str) -> (r: String)
    ensures
        r@ == golden_path_of(golden_dir@, *image, extension@),
{
    let group: String = join(golden_dir, image.group.as_str());
    let dir: String = join(group.as_str(), image.name.as_str());
    let file: String = join(dir.as_str(), image.name.as_str());
    join3(file.as_str(), ".", extension)
}

/// The path of the temporary overlay of a worker.
pub open spec fn overlay_path_of(temp_dir: Seq<char>, worker: Seq<char>) -> Seq<char> {
    with_extension_of(joined(temp_dir, worker), "qcow2"@)
}

/// A path, where the file at it was found to exist.
///
/// * `path` - The path of the file
/// * `found` - Whether the file exists, or the message of the error in finding out
/// * `missing` - What to say, before the path in quotes, where the file does not exist
pub fn existing(path: String, found: Result<bool, String>, missing: &str) -> (r: Result<
    String,
    Error,
>)
    ensures
        match found {
            Ok(true) => r == Ok::<String, Error>(path),
            Ok(false) => r matches Err(e) && e@ == ErrorView::Generic(
                missing@ + " '"@ + path@ + "'"@,
            ),
            Err(message) => r matches Err(e) && e@ == ErrorView::IO(message@),
        },
{
    match found {
        Ok(true) => Ok(path),
        Ok(false) => {
            let start: String = join2(missing, " '");
            Err(Error::Generic(join3(start.as_str(), path.as_str(), "'")))
        },
        Err(message) => Err(Error::IO(message)),
    }
}

/// The arguments with which `qemu-img` creates an overlay.
pub open spec fn overlay_args_of(golden_path: Seq<char>, overlay_path: Seq<char>) -> Seq<
    Seq<char>,
> {
    seq!["create"@, "-f"@, "qcow2"@, "-F"@, "qcow2"@, "-b"@, golden_path, overlay_path]
}

/// The arguments with which `qemu-img` creates an overlay.
///
/// * `golden_path` - The path to the golden image
/// * `overlay_path` - The path to the overlay
pub fn overlay_args(golden_path: &str, overlay_path: &str) -> (r: Vec<String>)
    ensures
        texts(r@) == overlay_args_of(golden_path@, overlay_path@),
{
    let args: Vec<String> =
        vec![
        to_owned("create"),
        to_owned("-f"),
        to_owned("qcow2"),
        to_owned("-F"),
        to_owned("qcow2"),
        to_owned("-b"),
        to_owned(golden_path),
        to_owned(overlay_path),
    ];
    assert(texts(args@) =~= overlay_args_of(golden_path@, overlay_path@));
    args
}

/// The error for an overlay that `qemu-img` did not create.
pub open spec fn overlay_failure(
    golden_path: Seq<char>,
    overlay_path: Seq<char>,
    stderr: Seq<u8>,
) -> ErrorView {
    ErrorView::Generic(
        "Failed to create overlay image '"@ + golden_path + "' from golden image '"@ + overlay_path
            + "': "@ + utf8_lossy(stderr),
    )
}

impl Init {
    /// Create a qcow2 overlay for this worker based on a golden image, saving on disk space
    /// and I/O by leveraging copy-on-write.
    ///
    /// * `args` - The KVM-specific args passed to the reactor
    /// * `golden_path` - The path to the golden image
    /// * `guest_os` - The detected OS of the guest, if it was detected
    /// * `output` - What came of `qemu-img`, or the message of the error in running it
    pub fn overlay(
        self,
        args: &Kvm,
        golden_path: &str,
        guest_os: Option<GuestOs>,
        output: Result<CommandOutput, String>,
    ) -> (r: Result<Overlayed, Error>)
        ensures
            match output {
                Err(message) => r matches Err(e) && e@ == ErrorView::IO(message@),
                Ok(out) => if out.success {
                    r matches Ok(overlayed) && {
                        &&& overlayed.worker == self.worker
                        &&& overlayed.guest_os == (match guest_os {
                            Some(os) => os,
                            None => GuestOs::Unknown,
                        })
                        &&& overlayed.overlay_path@ == overlay_path_of(
                            args.temp_dir@,
                            self.worker@,
                        )
                    }
                } else {
                    r matches Err(e) && e@ == overlay_failure(
                        golden_path@,
                        overlay_path_of(args.temp_dir@, self.worker@),
                        out.stderr@,
                    )
                },
            },
    {
        let os: GuestOs = match guest_os {
            Some(os) => os,
            None => GuestOs::Unknown,
        };
        let overlay_path: String = self.overlay_path(args);
        match output {
            Err(message) => Err(Error::IO(message)),
            Ok(out) => if out.success {
                Ok(self.next_state((os, overlay_path)))
            } else {
                let stderr: String = text_from_utf8_lossy(out.stderr.as_slice());
                let start: String = join5(
                    "Failed to create overlay image '",
                    golden_path,
                    "' from golden image '",
                    overlay_path.as_str(),
                    "': ",
                );
                Err(Error::Generic(join2(start.as_str(), stderr.as_str())))
            },
        }
    }

    /// Proceed to the next state as if we actually overlayed the worker.
    pub fn mock_overlay(self, args: &Kvm) -> (r: Overlayed)
        ensures
            r.worker == self.worker,
            r.guest_os == GuestOs::Unknown,
            r.overlay_path@ == overlay_path_of(args.temp_dir@, self.worker@),
    {
        let overlay_path: String = self.overlay_path(args);
        self.next_state((GuestOs::Unknown, overlay_path))
    }

    /// Find the golden qcow2 image for a given worker.
    ///
    /// * `golden_dir` - The path to the base golden directory
    /// * `image` - The image information
    /// * `found` - Whether there is a file at the image's path, or the message of the error
    ///   in finding out
    pub fn find_golden_image(golden_dir: &str, image: &Image, found: Result<bool, String>) -> (r:
        Result<String, Error>)
        ensures
            match found {
                Ok(true) => r matches Ok(path) && path@ == golden_path_of(
                    golden_dir@,
                    *image,
                    "qcow2"@,
                ),
                Ok(false) => r matches Err(e) && e@ == ErrorView::Generic(
                    "Failed to find golden image at path"@ + " '"@ + golden_path_of(
                        golden_dir@,
                        *image,
                        "qcow2"@,
                    ) + "'"@,
                ),
                Err(message) => r matches Err(e) && e@ == ErrorView::IO(message@),
            },
    {
        existing(
            golden_path(golden_dir, image, "qcow2"),
            found,
            "Failed to find golden image at path",
        )
    }

    /// Define a path to a temporary overlay for the worker.
    pub fn overlay_path(&self, args: &Kvm) -> (r: String)
        ensures
            r@ == overlay_path_of(args.temp_dir@, self.worker@),
    {
        let file: String = join(args.temp_dir.as_str(), self.worker.as_str());
        with_extension(file.as_str(), "qcow2")
    }
}

} // verus!
