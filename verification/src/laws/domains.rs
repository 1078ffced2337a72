//! Creating and removing the domain of a worker.

use vstd::prelude::*;

use crate::args::Kvm;
use crate::bare_metal::is_plain;
use crate::creation::{Creation, CreationAction, CreationEvent};
use crate::encoding::utf8_lossy;
use crate::error::{Error, ErrorView};
use crate::kvm_worker::KvmWorker;
use crate::models::{CommandOutput, Image, Resources, Worker};
use crate::os_detector::GuestOs;
use crate::paths::joined;
use crate::state::defined::{undefine_next, UndefineStep};
use crate::state::init::{existing, golden_path, overlay_args, overlay_path_of};
use crate::state::launched::VirtError;
use crate::state::overlayed::{check_resources, vcpus};
use crate::state::{Created, Defined, DestroyAction, Init, Overlayed};
use crate::text::texts;
use crate::time::UtcTime;
use crate::xml::try_mem_units;

verus! {

/// A name in a directory.
pub open spec fn in_dir(dir: Seq<char>, name: Seq<char>) -> Seq<char> {
    dir + seq!['/'] + name
}

/// A name in a directory is joined to it by a separator.
proof fn lemma_joined(dir: Seq<char>, name: Seq<char>)
    requires
        dir.len() > 0,
        dir.last() != '/',
        is_plain(name),
    ensures
        joined(dir, name) == in_dir(dir, name),
        in_dir(dir, name).len() > 0,
        in_dir(dir, name).last() != '/',
{
    assert(name.contains(name[0]));
    assert(name.contains(name.last()));
    assert(in_dir(dir, name).last() == name.last());
}

/// The golden files of an image are in the directory of the image in that of its group, under the
/// name of the image.
pub proof fn law_golden_files_are_where_they_belong(
    golden_dir: &str,
    image: Image,
    extension: &str,
    path: String,
)
    requires
        golden_dir@.len() > 0,
        golden_dir@.last() != '/',
        is_plain(image.group@),
        is_plain(image.name@),
        call_ensures(golden_path, (golden_dir, &image, extension), path),
    ensures
        path@ == golden_dir@ + seq!['/'] + image.group@ + seq!['/'] + image.name@ + seq!['/']
            + image.name@ + seq!['.'] + extension@,
{
    lemma_joined(golden_dir@, image.group@);
    let group = in_dir(golden_dir@, image.group@);
    lemma_joined(group, image.name@);
    let dir = in_dir(group, image.name@);
    lemma_joined(dir, image.name@);
    reveal_strlit(".");
    assert("."@ =~= seq!['.']);
}

/// The overlay of a worker is in the temporary directory, under the name of the worker, and is a
/// qcow2 image. So workers of different names have different overlays.
pub proof fn law_overlays_go_by_their_worker(init: Init, args: Kvm, path: String)
    requires
        args.temp_dir@.len() > 0,
        args.temp_dir@.last() != '/',
        is_plain(init.worker@),
        !init.worker@.contains('.'),
        call_ensures(Init::overlay_path, (&init, &args), path),
    ensures
        path@ == args.temp_dir@ + seq!['/'] + init.worker@ + ".qcow2"@,
{
    let name = init.worker@;
    let before = args.temp_dir@.push('/');
    let file = joined(args.temp_dir@, name);
    lemma_joined(args.temp_dir@, name);
    assert(file =~= before + name);
    lemma_extension_added(before, name);
    reveal_strlit(".qcow2");
    reveal_strlit("qcow2");
    assert(before + name.push('.') + "qcow2"@ =~= args.temp_dir@ + seq!['/'] + name + ".qcow2"@);
}

/// An extension is added to a name without a dot.
proof fn lemma_extension_added(before: Seq<char>, name: Seq<char>)
    requires
        before.len() > 0,
        before.last() == '/',
        is_plain(name),
        !name.contains('.'),
    ensures
        crate::paths::with_extension_of(before + name, "qcow2"@) == before + name.push('.')
            + "qcow2"@,
{
    let path = before + name;
    crate::bare_metal::lemma_last_segment(before, name);
    crate::bare_metal::lemma_nothing_trails(before, name, crate::paths::lead_len(path));
    assert(path.skip(before.len() as int) =~= name);
    assert(path.len() > 1);
    crate::laws::paths::lemma_no_dot(name);
    assert(path.take((before.len() + name.len()) as int) =~= path);
    assert(path + seq!['.'] + "qcow2"@ =~= before + name.push('.') + "qcow2"@);
}

/// A file that is there is used, one that is not is missed by its path, and one that could not be
/// looked for is an error.
pub proof fn law_missing_files_are_named(
    path: String,
    found: Result<bool, String>,
    missing: &str,
    r: Result<String, Error>,
)
    requires
        call_ensures(existing, (path, found, missing), r),
    ensures
        r is Ok <==> found == Ok::<bool, String>(true),
        r matches Ok(p) ==> p@ == path@,
        found == Ok::<bool, String>(false) ==> (r matches Err(e) && e@ == ErrorView::Generic(
            missing@ + " '"@ + path@ + "'"@,
        )),
        found matches Err(message) ==> (r matches Err(e) && e@ == ErrorView::IO(message@)),
{
}

/// The golden files that are looked for are the disk image and the XML definition.
pub proof fn law_golden_images_and_definitions_are_found(
    golden_dir: &str,
    image: Image,
    found: Result<bool, String>,
    disk_extension: &str,
    xml_extension: &str,
    disk_path: String,
    xml_path: String,
    disk: Result<String, Error>,
    xml: Result<String, Error>,
)
    requires
        disk_extension@ == "qcow2"@,
        xml_extension@ == "xml"@,
        call_ensures(golden_path, (golden_dir, &image, disk_extension), disk_path),
        call_ensures(golden_path, (golden_dir, &image, xml_extension), xml_path),
        call_ensures(Init::find_golden_image, (golden_dir, &image, found), disk),
        call_ensures(Overlayed::find_golden_xml, (golden_dir, &image, found), xml),
    ensures
        disk is Ok <==> found == Ok::<bool, String>(true),
        xml is Ok <==> found == Ok::<bool, String>(true),
        disk matches Ok(path) ==> path@ == disk_path@,
        xml matches Ok(path) ==> path@ == xml_path@,
        found == Ok::<bool, String>(false) ==> {
            &&& disk matches Err(e) && e@ == ErrorView::Generic(
                "Failed to find golden image at path"@ + " '"@ + disk_path@ + "'"@,
            )
            &&& xml matches Err(e) && e@ == ErrorView::Generic(
                "Failed to find golden XML at path"@ + " '"@ + xml_path@ + "'"@,
            )
        },
{
}

/// An overlay is created on the golden image: both are qcow2 images, and the golden one is the
/// one that is kept as it is.
pub proof fn law_overlays_are_based_on_the_golden_image(
    golden: &str,
    overlay: &str,
    args: Vec<String>,
)
    requires
        call_ensures(overlay_args, (golden, overlay), args),
    ensures
        args@.len() == 8,
        args@[0]@ == "create"@,
        args@[1]@ == "-f"@ && args@[2]@ == "qcow2"@,
        args@[3]@ == "-F"@ && args@[4]@ == "qcow2"@,
        args@[5]@ == "-b"@ && args@[6]@ == golden@,
        args@[7]@ == overlay@,
{
    let t = texts(args@);
    assert(t.len() == args@.len());
    assert(forall|i: int| 0 <= i < t.len() ==> (#[trigger] args@[i])@ == t[i]);
}

/// A worker whose overlay was created has it at its path, with the OS that was detected.
pub proof fn law_overlayed_workers_have_their_overlay(
    init: Init,
    args: Kvm,
    golden: &str,
    os: Option<GuestOs>,
    output: Result<CommandOutput, String>,
    path: String,
    r: Result<Overlayed, Error>,
    mock: Overlayed,
)
    requires
        call_ensures(Init::overlay_path, (&init, &args), path),
        call_ensures(Init::overlay, (init, &args, golden, os, output), r),
        call_ensures(Init::mock_overlay, (init, &args), mock),
    ensures
        r is Ok <==> (output matches Ok(out) && out.success),
        r matches Ok(overlayed) ==> {
            &&& overlayed.worker == init.worker
            &&& overlayed.overlay_path@ == path@
            &&& os matches Some(detected) ==> overlayed.guest_os == detected
            &&& os is None ==> overlayed.guest_os == GuestOs::Unknown
        },
        output matches Err(message) ==> (r matches Err(e) && e@ == ErrorView::IO(message@)),
        output matches Ok(out) ==> (!out.success ==> (r matches Err(e) && e@ == ErrorView::Generic(
            "Failed to create overlay image '"@ + golden@ + "' from golden image '"@ + path@
                + "': "@ + utf8_lossy(out.stderr@),
        ))),
        mock.worker == init.worker && mock.overlay_path@ == path@ && mock.guest_os
            == GuestOs::Unknown,
{
}

/// The domain of a worker goes by the name of the worker behind the prefix of Thorium. It keeps
/// what the worker has.
pub proof fn law_domains_go_by_their_worker(
    overlayed: Overlayed,
    name: String,
    domain: Result<(), String>,
    r: Result<Defined, Error>,
    mock: Defined,
)
    requires
        call_ensures(Overlayed::domain_name, (&overlayed,), name),
        call_ensures(Overlayed::define, (overlayed, domain), r),
        call_ensures(Overlayed::mock_define, (overlayed,), mock),
    ensures
        name@ == "thorium_"@ + overlayed.worker@,
        r is Ok <==> domain is Ok,
        r matches Ok(defined) ==> {
            &&& defined.domain_name@ == "thorium_"@ + overlayed.worker@
            &&& defined.worker == overlayed.worker
            &&& defined.guest_os == overlayed.guest_os
            &&& defined.overlay_path == overlayed.overlay_path
        },
        domain matches Err(message) ==> (r matches Err(e) && e@ == ErrorView::Virt(message@)),
        mock.domain_name@ == "thorium_"@ + overlayed.worker@ && mock.worker == overlayed.worker
            && mock.overlay_path == overlayed.overlay_path && mock.guest_os == overlayed.guest_os,
{
}

/// A domain that was spawned is created at that time and was not launched yet.
pub proof fn law_spawned_domains_are_created(
    defined: Defined,
    spawned: Result<(), String>,
    time: UtcTime,
    r: Result<Created, Error>,
)
    requires
        call_ensures(Defined::create_at, (defined, spawned, time), r),
    ensures
        r is Ok <==> spawned is Ok,
        r matches Ok(created) ==> {
            &&& created.created == time
            &&& created.last_launch_attempt is None
            &&& created.launch_attempts == 0
            &&& created.worker == defined.worker
            &&& created.guest_os == defined.guest_os
            &&& created.overlay_path == defined.overlay_path
            &&& created.domain_name == defined.domain_name
        },
        spawned matches Err(message) ==> (r matches Err(e) && e@ == ErrorView::Virt(message@)),
{
}

/// A worker needs CPU, and memory of 512 MiB.
pub proof fn law_workers_need_resources(resources: Resources, r: Result<(), Error>)
    requires
        call_ensures(check_resources, (&resources,), r),
    ensures
        r is Ok <==> resources.cpu > 0 && resources.memory >= 512,
        resources.cpu == 0 ==> (r matches Err(e) && e@ == ErrorView::Generic(
            "CPU resources cannot be zero"@,
        )),
        resources.cpu > 0 && resources.memory == 0 ==> (r matches Err(e) && e@
            == ErrorView::Generic("Memory resources cannot be zero"@)),
        resources.cpu > 0 && 0 < resources.memory < 512 ==> (r matches Err(e) && e@
            == ErrorView::Generic("Memory must be at least 512 MiB"@)),
{
}

/// A worker gets the smallest number of virtual CPUs that covers what it asks for, and one at
/// least.
pub proof fn law_virtual_cpus_cover_what_is_asked_for(millicpu: u64, r: u64)
    requires
        call_ensures(vcpus, (millicpu,), r),
    ensures
        r >= 1,
        1000 * r >= millicpu,
        r > 1 ==> 1000 * (r - 1) < millicpu,
{
}

/// A creation looks for the golden image, detects its OS, puts an overlay on it, looks for the
/// golden XML, reads it, and has the domain defined and spawned. It does nothing once it is over.
pub proof fn law_creations_ask_for_what_they_need(
    creation: Creation,
    args: Kvm,
    image: Image,
    action: CreationAction,
    golden_dir: &str,
    disk_extension: &str,
    xml_extension: &str,
    disk: String,
    xml: String,
)
    requires
        call_ensures(Creation::action, (&creation, &args, &image), action),
        golden_dir@ == args.golden_dir@,
        disk_extension@ == "qcow2"@,
        xml_extension@ == "xml"@,
        call_ensures(golden_path, (golden_dir, &image, disk_extension), disk),
        call_ensures(golden_path, (golden_dir, &image, xml_extension), xml),
    ensures
        creation is FindImage ==> (action matches CreationAction::CheckFile(path) && path@
            == disk@),
        creation matches Creation::DetectOs(_, golden) ==> (action matches CreationAction::DetectOs(
            path,
        ) && path@ == golden@),
        creation matches Creation::CreateOverlay(init, golden, _) ==> (
        action matches CreationAction::RunQemuImg(list) && list@.len() == 8 && list@[0]@
            == "create"@ && list@[5]@ == "-b"@ && list@[6]@ == golden@ && list@[7]@
            == overlay_path_of(args.temp_dir@, init.state.worker@)),
        creation is FindXml ==> (action matches CreationAction::CheckFile(path) && path@ == xml@),
        creation matches Creation::ReadXml(_, file) ==> (action matches CreationAction::ReadFile(
            path,
        ) && path@ == file@),
        creation matches Creation::DefineDomain(_, text) ==> (
        action matches CreationAction::DefineDomain(definition) && definition@ == text@),
        creation matches Creation::SpawnDomain(defined) ==> (
        action matches CreationAction::SpawnDomain(name) && name@ == defined.state.domain_name@),
        action is Nothing <==> creation is Finished || creation is Failed,
{
    if let Creation::CreateOverlay(init, golden, _) = creation {
        if let CreationAction::RunQemuImg(list) = action {
            let t = texts(list@);
            assert(t.len() == list@.len());
            assert(forall|i: int| 0 <= i < t.len() ==> (#[trigger] list@[i])@ == t[i]);
        }
    }
}

/// A creation starts with the golden image and goes from step to step as long as all goes well,
/// each step with what the one before has brought.
pub proof fn law_creations_go_from_step_to_step(
    name: String,
    new: Creation,
    creation: Creation,
    args: Kvm,
    worker: Worker,
    image: Image,
    event: CreationEvent,
    time: UtcTime,
    next: Creation,
)
    requires
        call_ensures(Creation::new, (name,), new),
        call_ensures(
            Creation::advance,
            (creation, &args, &worker, &image, event, time),
            Some(next),
        ),
    ensures
        new matches Creation::FindImage(init) && init.state.worker == name,
        creation matches Creation::FindImage(init) ==> (event == CreationEvent::FileChecked(
            Ok(true),
        ) ==> (next matches Creation::DetectOs(w, _) && w == init)),
        creation matches Creation::DetectOs(init, path) ==> (event matches CreationEvent::OsDetected(
            os,
        ) ==> next == Creation::CreateOverlay(init, path, os)),
        creation matches Creation::CreateOverlay(init, _, os) ==> (
        event matches CreationEvent::QemuImgRan(Ok(output)) ==> (output.success
            && worker.resources.cpu > 0 && worker.resources.memory >= 512 ==> (
        next matches Creation::FindXml(overlayed) && overlayed.state.worker == init.state.worker
            && overlayed.state.overlay_path@ == overlay_path_of(
            args.temp_dir@,
            init.state.worker@,
        ) && (os matches Some(found) ==> overlayed.state.guest_os == found) && (os is None
            ==> overlayed.state.guest_os == GuestOs::Unknown)))),
        creation matches Creation::FindXml(overlayed) ==> (event == CreationEvent::FileChecked(
            Ok(true),
        ) ==> (next matches Creation::ReadXml(w, _) && w == overlayed)),
        creation matches Creation::DefineDomain(overlayed, _) ==> (
        event matches CreationEvent::LibvirtAnswered(answer) ==> (answer is Ok ==> (
        next matches Creation::SpawnDomain(defined) && defined.state.worker
            == overlayed.state.worker && defined.state.overlay_path == overlayed.state.overlay_path
            && defined.state.guest_os == overlayed.state.guest_os && defined.state.domain_name@
            == "thorium_"@ + overlayed.state.worker@))),
        creation matches Creation::SpawnDomain(defined) ==> (
        event matches CreationEvent::LibvirtAnswered(answer) ==> (answer is Ok ==> (
        next matches Creation::Finished(created) && created.state.worker == defined.state.worker
            && created.state.overlay_path == defined.state.overlay_path
            && created.state.domain_name == defined.state.domain_name && created.state.guest_os
            == defined.state.guest_os && created.state.created == time
            && created.state.launch_attempts == 0))),
        creation is Finished || creation is Failed ==> next == creation,
{
}

/// No step is left out: each is come to from the one before it alone, and a worker is created
/// only once libvirt has spawned its domain.
pub proof fn law_creations_leave_no_step_out(
    creation: Creation,
    args: Kvm,
    worker: Worker,
    image: Image,
    event: CreationEvent,
    time: UtcTime,
    next: Creation,
)
    requires
        call_ensures(
            Creation::advance,
            (creation, &args, &worker, &image, event, time),
            Some(next),
        ),
        next != creation,
    ensures
        next is DetectOs ==> creation is FindImage,
        next is CreateOverlay ==> creation is DetectOs,
        next is FindXml ==> creation is CreateOverlay && (
        event matches CreationEvent::QemuImgRan(Ok(output)) && output.success),
        next is ReadXml ==> creation is FindXml,
        next is DefineDomain ==> creation is ReadXml,
        next is SpawnDomain ==> creation is DefineDomain && (
        event matches CreationEvent::LibvirtAnswered(answer) && answer is Ok),
        next is Finished ==> creation is SpawnDomain && (
        event matches CreationEvent::LibvirtAnswered(answer) && answer is Ok),
        !(next is FindImage),
{
}

/// Whatever goes wrong in a creation ends it with an error, and with all to be destroyed that the
/// worker has by then.
pub proof fn law_failures_end_a_creation(
    creation: Creation,
    args: Kvm,
    worker: Worker,
    image: Image,
    event: CreationEvent,
    time: UtcTime,
    next: Creation,
)
    requires
        call_ensures(
            Creation::advance,
            (creation, &args, &worker, &image, event, time),
            Some(next),
        ),
    ensures
        creation is FindImage ==> (event matches CreationEvent::FileChecked(found) ==> (found
            != Ok::<bool, String>(true) ==> (next matches Creation::Failed(left, _)
            && left@.len() == 0))),
        creation is CreateOverlay ==> (event matches CreationEvent::QemuImgRan(ran) ==> (!(
        ran matches Ok(output) && output.success) ==> (next matches Creation::Failed(left, _)
            && left@.len() == 0))),
        creation matches Creation::CreateOverlay(init, _, _) ==> (
        event matches CreationEvent::QemuImgRan(Ok(output)) ==> (output.success && (
        worker.resources.cpu == 0 || worker.resources.memory < 512) ==> (
        next matches Creation::Failed(left, _) && left@.len() == 1 && (left@[0]
            matches DestroyAction::DeleteOverlay(path) && path@ == overlay_path_of(
            args.temp_dir@,
            init.state.worker@,
        ))))),
        creation matches Creation::FindXml(overlayed) ==> (
        event matches CreationEvent::FileChecked(found) ==> (found != Ok::<bool, String>(true) ==> (
        next matches Creation::Failed(left, _) && left@ == seq![
            DestroyAction::DeleteOverlay(overlayed.state.overlay_path),
        ]))),
        creation matches Creation::ReadXml(overlayed, _) ==> (
        event matches CreationEvent::FileRead(Err(text)) ==> (next matches Creation::Failed(left, _)
            && left@ == seq![DestroyAction::DeleteOverlay(overlayed.state.overlay_path)])),
        creation matches Creation::DefineDomain(overlayed, _) ==> (
        event matches CreationEvent::LibvirtAnswered(Err(text)) ==> (
        next matches Creation::Failed(left, e) && e@ == ErrorView::Virt(text@) && left@ == seq![
            DestroyAction::DeleteOverlay(overlayed.state.overlay_path),
        ])),
        creation matches Creation::SpawnDomain(defined) ==> (
        event matches CreationEvent::LibvirtAnswered(Err(text)) ==> (
        next matches Creation::Failed(left, e) && e@ == ErrorView::Virt(text@) && left@ == seq![
            DestroyAction::UndefineDomain(defined.state.domain_name),
            DestroyAction::DeleteOverlay(defined.state.overlay_path),
        ])),
{
}

/// The golden files that a creation goes on with are those that it looked for.
pub proof fn law_creations_go_on_with_what_they_found(
    creation: Creation,
    args: Kvm,
    worker: Worker,
    image: Image,
    time: UtcTime,
    next: Creation,
    action: CreationAction,
)
    requires
        call_ensures(Creation::action, (&creation, &args, &image), action),
        call_ensures(
            Creation::advance,
            (creation, &args, &worker, &image, CreationEvent::FileChecked(Ok(true)), time),
            Some(next),
        ),
    ensures
        action matches CreationAction::CheckFile(path) ==> {
            ||| next matches Creation::DetectOs(_, golden) && golden@ == path@
            ||| next matches Creation::ReadXml(_, xml) && xml@ == path@
        },
{
}

/// What a creation has defined is the golden XML, filled in for the worker.
pub proof fn law_creations_define_the_domain_of_the_worker(
    overlayed: KvmWorker<Overlayed>,
    path: String,
    args: Kvm,
    worker: Worker,
    image: Image,
    xml: String,
    time: UtcTime,
    next: Creation,
    golden: &str,
    text: &str,
    made: Result<String, Error>,
)
    requires
        golden@ == path@,
        text@ == xml@,
        call_ensures(
            Creation::advance,
            (
                Creation::ReadXml(overlayed, path),
                &args,
                &worker,
                &image,
                CreationEvent::FileRead(Ok(xml)),
                time,
            ),
            Some(next),
        ),
        call_ensures(
            Overlayed::domain_xml,
            (&overlayed.state, &worker.resources, golden, Ok(text)),
            made,
        ),
    ensures
        made matches Ok(definition) ==> (next matches Creation::DefineDomain(kept, filled) && kept
            == overlayed && filled@ == definition@),
        made matches Err(error) ==> (next matches Creation::Failed(left, e) && e@ == error@ && left@
            == seq![DestroyAction::DeleteOverlay(overlayed.state.overlay_path)]),
{
}

/// A creation goes on with whatever comes of an action. Only memory that cannot be written in 64
/// bits has no definition to go on with.
pub proof fn law_creations_go_on(
    creation: Creation,
    args: Kvm,
    worker: Worker,
    image: Image,
    event: CreationEvent,
    time: UtcTime,
    r: Option<Creation>,
    text: &str,
    tried: Option<Option<u64>>,
)
    requires
        call_ensures(Creation::advance, (creation, &args, &worker, &image, event, time), r),
        event matches CreationEvent::FileRead(Ok(xml)) ==> text@ == xml@,
        call_ensures(try_mem_units, (text, worker.resources.memory), tried),
    ensures
        !(creation is ReadXml) ==> r is Some,
        !(event matches CreationEvent::FileRead(Ok(_))) ==> r is Some,
        creation is ReadXml && (event matches CreationEvent::FileRead(Ok(_))) ==> (r is Some
            <==> tried is Some && 1024 * worker.resources.memory <= u64::MAX),
{
}

/// A creation that fails says what went wrong, and with which file.
pub proof fn law_failed_creations_say_why(
    creation: Creation,
    args: Kvm,
    worker: Worker,
    image: Image,
    event: CreationEvent,
    time: UtcTime,
    next: Creation,
    action: CreationAction,
)
    requires
        call_ensures(Creation::action, (&creation, &args, &image), action),
        call_ensures(
            Creation::advance,
            (creation, &args, &worker, &image, event, time),
            Some(next),
        ),
    ensures
        creation is FindImage && event == CreationEvent::FileChecked(Ok(false)) ==> (
        next matches Creation::Failed(_, e) && action matches CreationAction::CheckFile(path) && e@
            == ErrorView::Generic("Failed to find golden image at path"@ + " '"@ + path@ + "'"@)),
        creation is FindXml && event == CreationEvent::FileChecked(Ok(false)) ==> (
        next matches Creation::Failed(_, e) && action matches CreationAction::CheckFile(path) && e@
            == ErrorView::Generic("Failed to find golden XML at path"@ + " '"@ + path@ + "'"@)),
        event matches CreationEvent::FileChecked(Err(text)) ==> (creation is FindImage
            || creation is FindXml ==> (next matches Creation::Failed(_, e) && e@ == ErrorView::IO(
            text@,
        ))),
        event matches CreationEvent::QemuImgRan(Err(text)) ==> (creation is CreateOverlay ==> (
        next matches Creation::Failed(_, e) && e@ == ErrorView::IO(text@))),
        creation matches Creation::CreateOverlay(init, golden, _) ==> (
        event matches CreationEvent::QemuImgRan(Ok(output)) ==> (!output.success ==> (
        next matches Creation::Failed(_, e) && e@ == ErrorView::Generic(
            "Failed to create overlay image '"@ + golden@ + "' from golden image '"@
                + overlay_path_of(args.temp_dir@, init.state.worker@) + "': "@ + utf8_lossy(
                output.stderr@,
            ),
        )))),
        creation matches Creation::ReadXml(_, path) ==> (event matches CreationEvent::FileRead(Err(
            text,
        )) ==> (next matches Creation::Failed(_, e) && e@ == ErrorView::Generic(
            "Error reading golden XML file '"@ + path@ + "'"@ + ": "@ + text@,
        ))),
{
}

/// What is left of a domain is removed step by step: it is looked up, shut down if it is active,
/// and then undefined. One that does not exist is gone already. Any other error ends the removal.
pub proof fn law_domains_are_removed_step_by_step(
    step: UndefineStep,
    event: Result<bool, VirtError>,
    next: UndefineStep,
)
    requires
        call_ensures(undefine_next, (step, event), next),
    ensures
        step is Lookup && event is Ok ==> next is CheckActive,
        step is Lookup ==> (event matches Err(error) ==> if error.kind is NoDomain {
            next is Gone
        } else {
            next matches UndefineStep::Failed(e) && e@ == ErrorView::Virt(error.message@)
        }),
        step is CheckActive && event == Ok::<bool, VirtError>(true) ==> next is Shutdown,
        step is CheckActive && event == Ok::<bool, VirtError>(false) ==> next is Undefine,
        step is Shutdown && event is Ok ==> next is Undefine,
        step is Undefine && event is Ok ==> next is Gone,
        step is CheckActive || step is Shutdown || step is Undefine ==> (event matches Err(error)
            ==> (next matches UndefineStep::Failed(e) && e@ == ErrorView::Virt(error.message@))),
        step is Gone ==> next is Gone,
        step is Failed ==> next == step,
{
}

} // verus!
