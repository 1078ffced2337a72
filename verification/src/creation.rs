//! Spawning a worker's domain: from a worker's name to its running domain.
//!
//! A [`Creation`] says what to look for, run or ask libvirt next, and goes on with what came
//! of it. A worker that cannot be proceeded to its next state is destroyed.

use vstd::prelude::*;

use crate::args::Kvm;
use crate::error::{in_context, Error, ErrorView};
use crate::kvm_worker::KvmWorker;
use crate::models::{CommandOutput, Image, Worker};
use crate::number::decimal;
use crate::os_detector::GuestOs;
use crate::state::init::{
    golden_path,
    golden_path_of,
    overlay_args,
    overlay_args_of,
    overlay_failure,
    overlay_path_of,
};
use crate::state::overlayed::{
    check_resources,
    domain_name_of,
    domain_xml_of,
    memory_amount,
    memory_fits,
    resources_fault,
    vcpus_for,
};
use crate::state::{
    created_at,
    domain_and_overlay,
    Created,
    Defined,
    DestroyAction,
    Init,
    KvmWorkerState,
    Overlayed,
};
use crate::text::texts;
use crate::time::UtcTime;
use crate::xml::unit_quote_is_ascii;

verus! {

/// How far the creation of a worker has come
#[derive(Debug)]
pub enum Creation {
    /// Whether the golden image is there is to be found out
    FindImage(KvmWorker<Init>),
    /// The OS of the golden image at this path is to be detected
    DetectOs(KvmWorker<Init>, String),
    /// The overlay of the golden image at this path is to be created
    CreateOverlay(KvmWorker<Init>, String, Option<GuestOs>),
    /// Whether the golden XML is there is to be found out
    FindXml(KvmWorker<Overlayed>),
    /// The golden XML at this path is to be read
    ReadXml(KvmWorker<Overlayed>, String),
    /// The domain with this definition is to be defined
    DefineDomain(KvmWorker<Overlayed>, String),
    /// The defined domain is to be spawned
    SpawnDomain(KvmWorker<Defined>),
    /// The worker is created
    Finished(KvmWorker<Created>),
    /// The worker could not be created for this reason; what is left of it is to be destroyed
    Failed(Vec<DestroyAction>, Error),
}

/// What is to be done next in a creation
#[derive(Debug)]
pub enum CreationAction {
    /// Find out whether there is a file at this path
    CheckFile(String),
    /// Detect the OS of the disk image at this path
    DetectOs(String),
    /// Run `qemu-img` with these arguments
    RunQemuImg(Vec<String>),
    /// Read the file at this path
    ReadFile(String),
    /// Define a domain with this XML
    DefineDomain(String),
    /// Spawn the domain of this name
    SpawnDomain(String),
    /// Nothing
    Nothing,
}

/// What came of the last action in a creation
#[derive(Debug)]
pub enum CreationEvent {
    /// Whether there is a file, or the message of the error in finding out
    FileChecked(Result<bool, String>),
    /// The OS that was detected, if it was
    OsDetected(Option<GuestOs>),
    /// What came of `qemu-img`, or the message of the error in running it
    QemuImgRan(Result<CommandOutput, String>),
    /// The content of a file, or the `Debug` text of the error in reading it
    FileRead(Result<String, String>),
    /// Whether libvirt did what it was asked to, or the message of its error
    LibvirtAnswered(Result<(), String>),
}

/// Whether a creation has failed with an error and leaves the given things to destroy.
pub open spec fn creation_failed(
    creation: Creation,
    remains: Seq<DestroyAction>,
    error: ErrorView,
) -> bool {
    creation matches Creation::Failed(actions, e) && actions@ == remains && e@ == error
}

/// Whether an overlayed worker is the one that an initiated one becomes.
pub open spec fn is_overlayed(
    args: Kvm,
    init: Init,
    guest_os: Option<GuestOs>,
    overlayed: Overlayed,
) -> bool {
    &&& overlayed.worker == init.worker
    &&& overlayed.guest_os == (match guest_os {
        Some(os) => os,
        None => GuestOs::Unknown,
    })
    &&& overlayed.overlay_path@ == overlay_path_of(args.temp_dir@, init.worker@)
}

/// Whether a defined worker is the one that an overlayed one becomes.
pub open spec fn is_defined(overlayed: Overlayed, defined: Defined) -> bool {
    &&& defined.worker == overlayed.worker
    &&& defined.guest_os == overlayed.guest_os
    &&& defined.overlay_path == overlayed.overlay_path
    &&& defined.domain_name@ == domain_name_of(overlayed.worker@)
}

/// What a path is missing for, in the words of the error.
pub open spec fn missing_file(what: Seq<char>, path: Seq<char>) -> ErrorView {
    ErrorView::Generic(what + " '"@ + path + "'"@)
}

/// The definition of the domain of an overlayed worker, made from a golden XML.
pub open spec fn definition_of(
    overlayed: Overlayed,
    worker: Worker,
    golden_xml: Seq<char>,
    xml: Seq<char>,
) -> Result<Seq<char>, ErrorView> {
    domain_xml_of(
        xml,
        golden_xml,
        domain_name_of(overlayed.worker@),
        decimal(vcpus_for(worker.resources.cpu as nat)),
        decimal(memory_amount(xml, worker.resources.memory as nat)),
        overlayed.overlay_path@,
    )
}

/// Whether one step of a creation is the one that follows on another. What does not fit the
/// step that it is to follow on changes nothing.
pub open spec fn creation_leads_to(
    args: Kvm,
    worker: Worker,
    image: Image,
    creation: Creation,
    event: CreationEvent,
    time: UtcTime,
    next: Creation,
) -> bool {
    match (creation, event) {
        (Creation::FindImage(init), CreationEvent::FileChecked(Ok(true))) => next matches
            Creation::DetectOs(w, path) && w == init && path@ == golden_path_of(
            args.golden_dir@,
            image,
            "qcow2"@,
        ),
        (Creation::FindImage(init), CreationEvent::FileChecked(Ok(false))) => creation_failed(
            next,
            Seq::empty(),
            missing_file(
                "Failed to find golden image at path"@,
                golden_path_of(args.golden_dir@, image, "qcow2"@),
            ),
        ),
        (Creation::FindImage(init), CreationEvent::FileChecked(Err(text))) => creation_failed(
            next,
            Seq::empty(),
            ErrorView::IO(text@),
        ),
        (Creation::DetectOs(init, path), CreationEvent::OsDetected(guest_os)) => next
            == Creation::CreateOverlay(init, path, guest_os),
        (
            Creation::CreateOverlay(init, path, guest_os),
            CreationEvent::QemuImgRan(Err(text)),
        ) => creation_failed(next, Seq::empty(), ErrorView::IO(text@)),
        (
            Creation::CreateOverlay(init, path, guest_os),
            CreationEvent::QemuImgRan(Ok(output)),
        ) => if !output.success {
            creation_failed(
                next,
                Seq::empty(),
                overlay_failure(
                    path@,
                    overlay_path_of(args.temp_dir@, init.state.worker@),
                    output.stderr@,
                ),
            )
        } else {
            match resources_fault(worker.resources) {
                Some(error) => exists|overlayed: Overlayed|
                    #[trigger] is_overlayed(args, init.state, guest_os, overlayed)
                        && creation_failed(
                        next,
                        seq![DestroyAction::DeleteOverlay(overlayed.overlay_path)],
                        error,
                    ),
                None => next matches Creation::FindXml(overlayed) && is_overlayed(
                    args,
                    init.state,
                    guest_os,
                    overlayed.state,
                ),
            }
        },
        (Creation::FindXml(overlayed), CreationEvent::FileChecked(Ok(true))) => next matches
            Creation::ReadXml(w, path) && w == overlayed && path@ == golden_path_of(
            args.golden_dir@,
            image,
            "xml"@,
        ),
        (Creation::FindXml(overlayed), CreationEvent::FileChecked(Ok(false))) => creation_failed(
            next,
            seq![DestroyAction::DeleteOverlay(overlayed.state.overlay_path)],
            missing_file(
                "Failed to find golden XML at path"@,
                golden_path_of(args.golden_dir@, image, "xml"@),
            ),
        ),
        (Creation::FindXml(overlayed), CreationEvent::FileChecked(Err(text))) => creation_failed(
            next,
            seq![DestroyAction::DeleteOverlay(overlayed.state.overlay_path)],
            ErrorView::IO(text@),
        ),
        (Creation::ReadXml(overlayed, path), CreationEvent::FileRead(Err(text))) => creation_failed(
            next,
            seq![DestroyAction::DeleteOverlay(overlayed.state.overlay_path)],
            in_context("Error reading golden XML file '"@ + path@ + "'"@, text@),
        ),
        (Creation::ReadXml(overlayed, path), CreationEvent::FileRead(Ok(xml))) => match definition_of(
            overlayed.state,
            worker,
            path@,
            xml@,
        ) {
            Ok(definition) => next matches Creation::DefineDomain(w, text) && w == overlayed
                && text@ == definition,
            Err(error) => creation_failed(
                next,
                seq![DestroyAction::DeleteOverlay(overlayed.state.overlay_path)],
                error,
            ),
        },
        (Creation::DefineDomain(overlayed, _), CreationEvent::LibvirtAnswered(Ok(_))) => next
            matches Creation::SpawnDomain(defined) && is_defined(overlayed.state, defined.state),
        (
            Creation::DefineDomain(overlayed, _),
            CreationEvent::LibvirtAnswered(Err(text)),
        ) => creation_failed(
            next,
            seq![DestroyAction::DeleteOverlay(overlayed.state.overlay_path)],
            ErrorView::Virt(text@),
        ),
        (Creation::SpawnDomain(defined), CreationEvent::LibvirtAnswered(Ok(_))) => next matches
            Creation::Finished(created) && created.state == created_at(defined.state, time),
        (Creation::SpawnDomain(defined), CreationEvent::LibvirtAnswered(Err(text))) => creation_failed(
            next,
            domain_and_overlay(defined.state.domain_name, defined.state.overlay_path),
            ErrorView::Virt(text@),
        ),
        _ => next == creation,
    }
}

/// Whether the memory of a worker can be written into a golden XML that was read, in 64 bits.
pub open spec fn memory_is_writable(worker: Worker, creation: Creation, event: CreationEvent) -> bool {
    match (creation, event) {
        (Creation::ReadXml(_, _), CreationEvent::FileRead(Ok(xml))) => memory_fits(
            xml@,
            worker.resources.memory,
        ) && worker.resources.memory * 1024 <= u64::MAX,
        _ => true,
    }
}

/// Whether a golden XML that was read quotes its memory unit with a character of one byte.
pub open spec fn unit_is_readable(creation: Creation, event: CreationEvent) -> bool {
    match (creation, event) {
        (Creation::ReadXml(_, _), CreationEvent::FileRead(Ok(xml))) => unit_quote_is_ascii(xml@),
        _ => true,
    }
}

/// Whether an action is the one that a step of a creation asks for.
pub open spec fn creation_wants(
    args: Kvm,
    image: Image,
    creation: Creation,
    action: CreationAction,
) -> bool {
    match creation {
        Creation::FindImage(_) => action matches CreationAction::CheckFile(path) && path@
            == golden_path_of(args.golden_dir@, image, "qcow2"@),
        Creation::DetectOs(_, golden) => action matches CreationAction::DetectOs(path) && path@
            == golden@,
        Creation::CreateOverlay(init, golden, _) => action matches CreationAction::RunQemuImg(list)
            && texts(list@) == overlay_args_of(
            golden@,
            overlay_path_of(args.temp_dir@, init.state.worker@),
        ),
        Creation::FindXml(_) => action matches CreationAction::CheckFile(path) && path@
            == golden_path_of(args.golden_dir@, image, "xml"@),
        Creation::ReadXml(_, xml) => action matches CreationAction::ReadFile(path) && path@ == xml@,
        Creation::DefineDomain(_, xml) => action matches CreationAction::DefineDomain(text)
            && text@ == xml@,
        Creation::SpawnDomain(defined) => action matches CreationAction::SpawnDomain(name)
            && name@ == defined.state.domain_name@,
        Creation::Finished(_) => action is Nothing,
        Creation::Failed(_, _) => action is Nothing,
    }
}

impl Creation {
    /// Start the creation of a worker.
    ///
    /// * `worker` - The name of the worker
    pub fn new(worker: String) -> (r: Creation)
        ensures
            r == Creation::FindImage(KvmWorker { state: Init { worker } }),
    {
        Creation::FindImage(KvmWorker::init(worker))
    }

    /// What is to be done next.
    ///
    /// * `args` - The KVM-specific args passed to the reactor
    /// * `image` - The image of the worker
    pub fn action(&self, args: &Kvm, image: &Image) -> (r: CreationAction)
        ensures
            creation_wants(*args, *image, *self, r),
    {
        match self {
            Creation::FindImage(_) => CreationAction::CheckFile(
                golden_path(args.golden_dir.as_str(), image, "qcow2"),
            ),
            Creation::DetectOs(_, path) => CreationAction::DetectOs(path.clone()),
            Creation::CreateOverlay(init, path, _) => {
                let overlay_path: String = init.state.overlay_path(args);
                CreationAction::RunQemuImg(overlay_args(path.as_str(), overlay_path.as_str()))
            },
            Creation::FindXml(_) => CreationAction::CheckFile(
                golden_path(args.golden_dir.as_str(), image, "xml"),
            ),
            Creation::ReadXml(_, path) => CreationAction::ReadFile(path.clone()),
            Creation::DefineDomain(_, xml) => CreationAction::DefineDomain(xml.clone()),
            Creation::SpawnDomain(defined) => CreationAction::SpawnDomain(
                defined.state.domain_name.clone(),
            ),
            Creation::Finished(_) => CreationAction::Nothing,
            Creation::Failed(_, _) => CreationAction::Nothing,
        }
    }

    /// Go on with what came of the last action. There is no result where the worker's memory
    /// cannot be converted in 64 bits.
    ///
    /// * `args` - The KVM-specific args passed to the reactor
    /// * `worker` - The worker to create
    /// * `image` - The image of the worker
    /// * `event` - What came of the last action
    /// * `time` - The time of the event
    pub fn advance(
        self,
        args: &Kvm,
        worker: &Worker,
        image: &Image,
        event: CreationEvent,
        time: UtcTime,
    ) -> (r: Option<Creation>)
        requires
            unit_is_readable(self, event),
        ensures
            r is Some <==> memory_is_writable(*worker, self, event),
            r matches Some(next) ==> creation_leads_to(
                *args,
                *worker,
                *image,
                self,
                event,
                time,
                next,
            ),
    {
        let next: Creation = match self {
            Creation::FindImage(init) => match event {
                CreationEvent::FileChecked(found) => match Init::find_golden_image(
                    args.golden_dir.as_str(),
                    image,
                    found,
                ) {
                    Ok(path) => Creation::DetectOs(init, path),
                    Err(error) => Creation::Failed(init.destroy(), error),
                },
                _ => Creation::FindImage(init),
            },
            Creation::DetectOs(init, path) => match event {
                CreationEvent::OsDetected(guest_os) => Creation::CreateOverlay(
                    init,
                    path,
                    guest_os,
                ),
                _ => Creation::DetectOs(init, path),
            },
            Creation::CreateOverlay(init, path, guest_os) => match event {
                CreationEvent::QemuImgRan(output) => match init.overlay(
                    args,
                    path.as_str(),
                    guest_os,
                    output,
                ) {
                    Ok(overlayed) => {
                        proof {
                            assert(is_overlayed(*args, init.state, guest_os, overlayed.state));
                        }
                        match check_resources(&worker.resources) {
                            Ok(_) => Creation::FindXml(overlayed),
                            Err(error) => Creation::Failed(overlayed.destroy(), error),
                        }
                    },
                    Err(error) => Creation::Failed(Vec::new(), error),
                },
                _ => Creation::CreateOverlay(init, path, guest_os),
            },
            Creation::FindXml(overlayed) => match event {
                CreationEvent::FileChecked(found) => match Overlayed::find_golden_xml(
                    args.golden_dir.as_str(),
                    image,
                    found,
                ) {
                    Ok(path) => Creation::ReadXml(overlayed, path),
                    Err(error) => Creation::Failed(overlayed.destroy(), error),
                },
                _ => Creation::FindXml(overlayed),
            },
            Creation::ReadXml(overlayed, path) => match event {
                CreationEvent::FileRead(content) => {
                    let xml: Result<&str, &str> = match &content {
                        Ok(text) => Ok(text.as_str()),
                        Err(error) => Err(error.as_str()),
                    };
                    match overlayed.state.try_domain_xml(&worker.resources, path.as_str(), xml) {
                        None => return None,
                        Some(Ok(definition)) => Creation::DefineDomain(overlayed, definition),
                        Some(Err(error)) => Creation::Failed(overlayed.destroy(), error),
                    }
                },
                _ => Creation::ReadXml(overlayed, path),
            },
            Creation::DefineDomain(overlayed, xml) => match event {
                CreationEvent::LibvirtAnswered(Ok(_)) => Creation::SpawnDomain(
                    overlayed.mock_define(),
                ),
                CreationEvent::LibvirtAnswered(Err(text)) => Creation::Failed(
                    overlayed.destroy(),
                    Error::Virt(text),
                ),
                _ => Creation::DefineDomain(overlayed, xml),
            },
            Creation::SpawnDomain(defined) => match event {
                CreationEvent::LibvirtAnswered(Ok(_)) => Creation::Finished(
                    KvmWorker { state: defined.state.next_state_at(time) },
                ),
                CreationEvent::LibvirtAnswered(Err(text)) => Creation::Failed(
                    defined.destroy(),
                    Error::Virt(text),
                ),
                _ => Creation::SpawnDomain(defined),
            },
            Creation::Finished(created) => Creation::Finished(created),
            Creation::Failed(actions, error) => Creation::Failed(actions, error),
        };
        Some(next)
    }
}

/// What a worker in creation has left behind so far.
pub open spec fn left_behind(creation: Creation) -> Seq<DestroyAction> {
    match creation {
        Creation::FindXml(worker) => seq![DestroyAction::DeleteOverlay(worker.state.overlay_path)],
        Creation::ReadXml(worker, _) => seq![
            DestroyAction::DeleteOverlay(worker.state.overlay_path),
        ],
        Creation::DefineDomain(worker, _) => seq![
            DestroyAction::DeleteOverlay(worker.state.overlay_path),
        ],
        Creation::SpawnDomain(worker) => domain_and_overlay(
            worker.state.domain_name,
            worker.state.overlay_path,
        ),
        Creation::Finished(worker) => domain_and_overlay(
            worker.state.domain_name,
            worker.state.overlay_path,
        ),
        Creation::Failed(actions, _) => actions@,
        _ => Seq::empty(),
    }
}

/// A creation that fails leaves nothing dangling: what it asks to be destroyed is all that
/// the worker has left behind, and the overlay of a worker with faulty resources.
pub proof fn law_failed_creations_are_destroyed(
    args: Kvm,
    worker: Worker,
    image: Image,
    creation: Creation,
    event: CreationEvent,
    time: UtcTime,
    next: Creation,
)
    requires
        creation_leads_to(args, worker, image, creation, event, time, next),
        next is Failed,
    ensures
        left_behind(next) == left_behind(creation) || (creation matches Creation::CreateOverlay(
            init,
            _,
            _,
        ) && left_behind(next).len() == 1 && (left_behind(next)[0] matches
            DestroyAction::DeleteOverlay(path) && path@ == overlay_path_of(
            args.temp_dir@,
            init.state.worker@,
        ))),
{
}

} // verus!
