//! The logic for a KVM worker in the [`Overlayed`] state.

use vstd::prelude::*;

use crate::encoding::{lowercase, quote, quoted};
use crate::error::{in_context, message, Error, ErrorView};
use crate::models::{Image, Resources};
use crate::number::{decimal, decimal_text};
use crate::state::init::{existing, golden_path, golden_path_of};
use crate::state::{Defined, KvmWorkerState, Overlayed};
use crate::text::{join2, join3};
use crate::xml::{
    all_present,
    apply_replacements,
    detect_mem_units,
    detected_amount,
    domain_replacements,
    first_missing,
    law_domain_placeholders_are_apart,
    missing_placeholder,
    replacements_of,
    rewritten,
    try_mem_units,
    unit_fits,
    unit_of,
    unit_quote_is_ascii,
};

verus! {

/// The prefix to prepend to Thorium-managed domains
pub const WORKER_DOMAIN_NAME_PREFIX: &'static str = "thorium_";

/// The smallest memory of a worker in MiB
pub const MIN_MEMORY: u64 = 512;

/// The name of a worker's domain: the prefix of Thorium's domains and the worker's name.
pub open spec fn domain_name_of(worker: Seq<char>) -> Seq<char> {
    WORKER_DOMAIN_NAME_PREFIX@ + worker
}

/// What is wrong with the resources of a worker, if anything is.
pub open spec fn resources_fault(resources: Resources) -> Option<ErrorView> {
    if resources.cpu == 0 {
        Some(ErrorView::Generic("CPU resources cannot be zero"@))
    } else if resources.memory == 0 {
        Some(ErrorView::Generic("Memory resources cannot be zero"@))
    } else if resources.memory < MIN_MEMORY {
        Some(ErrorView::Generic("Memory must be at least 512 MiB"@))
    } else {
        None
    }
}

/// Validate the resources of a worker.
pub fn check_resources(resources: &Resources) -> (r: Result<(), Error>)
    ensures
        match resources_fault(*resources) {
            Some(error) => r matches Err(e) && e@ == error,
            None => r is Ok,
        },
{
    if resources.cpu == 0 {
        return Err(Error::new("CPU resources cannot be zero"));
    }
    if resources.memory == 0 {
        return Err(Error::new("Memory resources cannot be zero"));
    }
    if resources.memory < MIN_MEMORY {
        return Err(Error::new("Memory must be at least 512 MiB"));
    }
    Ok(())
}

/// The number of virtual CPUs for an amount of millicpu: rounded up, and at least one.
pub open spec fn vcpus_for(millicpu: nat) -> nat {
    if millicpu == 0 {
        1
    } else {
        (millicpu + 999) / 1000
    }
}

/// The number of virtual CPUs for an amount of millicpu.
///
/// The virtual CPUs may be more than what was requested due to rounding up; there is always
/// at least one.
pub fn vcpus(millicpu: u64) -> (r: u64)
    ensures
        r == vcpus_for(millicpu as nat),
{
    let whole: u64 = millicpu / 1000;
    if millicpu == 0 {
        1
    } else if millicpu % 1000 == 0 {
        whole
    } else {
        whole + 1
    }
}

/// A worker is never given less CPU than it asks for, nor a whole virtual CPU more.
pub proof fn law_vcpus_cover_the_request(millicpu: nat)
    ensures
        vcpus_for(millicpu) >= 1,
        vcpus_for(millicpu) * 1000 >= millicpu,
        millicpu > 0 ==> vcpus_for(millicpu) * 1000 < millicpu + 1000,
{
}

/// The amount of memory to write into the definition of a domain: in the unit that the
/// golden XML gives its memory in, and in KiB where it gives none that is supported.
pub open spec fn memory_amount(xml: Seq<char>, memory: nat) -> nat {
    match detected_amount(xml, memory) {
        Some(amount) => amount,
        None => memory * 1024,
    }
}

/// The error for a golden XML that lacks a placeholder.
pub open spec fn malformed(golden_xml: Seq<char>, placeholder: Seq<char>) -> ErrorView {
    in_context(
        "Malformed worker XML '"@ + golden_xml + "'"@,
        "Generic("@ + quoted(message(missing_placeholder(placeholder))) + ")"@,
    )
}

/// The definition of a worker's domain that is made from a golden XML.
pub open spec fn domain_xml_of(
    xml: Seq<char>,
    golden_xml: Seq<char>,
    domain_name: Seq<char>,
    cpu: Seq<char>,
    memory: Seq<char>,
    overlay_path: Seq<char>,
) -> Result<Seq<char>, ErrorView> {
    let reps = domain_replacements(domain_name, cpu, memory, overlay_path);
    if all_present(xml, reps) {
        Ok(rewritten(xml, reps, 0, 0))
    } else {
        Err(malformed(golden_xml, reps[first_missing(xml, reps, 0)].0))
    }
}

/// Whether the memory of a worker can be converted for a golden XML in 64 bits.
pub open spec fn memory_fits(xml: Seq<char>, memory: u64) -> bool {
    unit_of(xml) matches Some(unit) ==> unit_fits(lowercase(unit), memory)
}

/// The definition of a domain, with its amounts as numbers.
fn fill_in(
    xml: &str,
    golden_xml: &str,
    domain_name: &str,
    cpu: u64,
    memory: u64,
    overlay_path: &str,
) -> (r: Result<String, Error>)
    ensures
        match domain_xml_of(
            xml@,
            golden_xml@,
            domain_name@,
            decimal(cpu as nat),
            decimal(memory as nat),
            overlay_path@,
        ) {
            Ok(text) => r matches Ok(s) && s@ == text,
            Err(error) => r matches Err(e) && e@ == error,
        },
{
    let cpu_text: String = decimal_text(cpu);
    let memory_text: String = decimal_text(memory);
    let replacements: [(&str, &str); 4] = [
        ("{NAME}", domain_name),
        ("{CPU}", cpu_text.as_str()),
        ("{MEMORY}", memory_text.as_str()),
        ("{FILE}", overlay_path),
    ];
    proof {
        assert(replacements_of(replacements@) =~= domain_replacements(
            domain_name@,
            cpu_text@,
            memory_text@,
            overlay_path@,
        ));
        law_domain_placeholders_are_apart(
            xml@,
            domain_name@,
            cpu_text@,
            memory_text@,
            overlay_path@,
        );
    }
    match apply_replacements(xml, &replacements) {
        Ok(text) => Ok(text),
        Err(error) => {
            let shown: String = quote(error.msg().as_str());
            let inner: String = join3("Generic(", shown.as_str(), ")");
            let context: String = join3("Malformed worker XML '", golden_xml, "'");
            Err(Error::with_context(context.as_str(), inner.as_str()))
        },
    }
}

impl Overlayed {
    /// Make the definition of the worker's domain.
    ///
    /// * `resources` - The resources of the worker
    /// * `golden_xml` - The path to the golden XML
    /// * `xml` - The content of the golden XML, or the `Debug` text of the error in reading it
    ///
    /// # Resource Allocation
    /// - CPU: Always rounds UP from mCPU to vCPU (minimum 1)
    /// - Memory: In the unit of the golden XML, by default in KiB
    pub fn domain_xml(
        &self,
        resources: &Resources,
        golden_xml: &str,
        xml: Result<&str, &str>,
    ) -> (r: Result<String, Error>)
        requires
            xml matches Ok(text) ==> {
                &&& unit_quote_is_ascii(text@)
                &&& memory_fits(text@, resources.memory)
                &&& resources.memory * 1024 <= u64::MAX
            },
        ensures
            match xml {
                Err(error) => r matches Err(e) && e@ == in_context(
                    "Error reading golden XML file '"@ + golden_xml@ + "'"@,
                    error@,
                ),
                Ok(text) => match domain_xml_of(
                    text@,
                    golden_xml@,
                    domain_name_of(self.worker@),
                    decimal(vcpus_for(resources.cpu as nat)),
                    decimal(memory_amount(text@, resources.memory as nat)),
                    self.overlay_path@,
                ) {
                    Ok(s) => r matches Ok(t) && t@ == s,
                    Err(error) => r matches Err(e) && e@ == error,
                },
            },
    {
        match xml {
            Err(error) => {
                let context: String = join3("Error reading golden XML file '", golden_xml, "'");
                Err(Error::with_context(context.as_str(), error))
            },
            Ok(text) => {
                let memory: u64 = match detect_mem_units(text, resources.memory) {
                    Some(amount) => amount,
                    None => resources.memory * 1024,
                };
                let name: String = self.domain_name();
                fill_in(
                    text,
                    golden_xml,
                    name.as_str(),
                    vcpus(resources.cpu),
                    memory,
                    self.overlay_path.as_str(),
                )
            },
        }
    }

    /// Make the definition of the worker's domain as [`Overlayed::domain_xml`] does, where
    /// the worker's memory can be converted in 64 bits. Elsewhere there is no result.
    pub fn try_domain_xml(
        &self,
        resources: &Resources,
        golden_xml: &str,
        xml: Result<&str, &str>,
    ) -> (r: Option<Result<String, Error>>)
        requires
            xml matches Ok(text) ==> unit_quote_is_ascii(text@),
        ensures
            r is None <==> (xml matches Ok(text) && (!memory_fits(text@, resources.memory)
                || resources.memory * 1024 > u64::MAX)),
            match (r, xml) {
                (None, _) => true,
                (Some(made), Err(error)) => made matches Err(e) && e@ == in_context(
                    "Error reading golden XML file '"@ + golden_xml@ + "'"@,
                    error@,
                ),
                (Some(made), Ok(text)) => match domain_xml_of(
                    text@,
                    golden_xml@,
                    domain_name_of(self.worker@),
                    decimal(vcpus_for(resources.cpu as nat)),
                    decimal(memory_amount(text@, resources.memory as nat)),
                    self.overlay_path@,
                ) {
                    Ok(s) => made matches Ok(t) && t@ == s,
                    Err(error) => made matches Err(e) && e@ == error,
                },
            },
    {
        if let Ok(text) = xml {
            if try_mem_units(text, resources.memory).is_none() || resources.memory > u64::MAX
                / 1024 {
                return None;
            }
        }
        Some(self.domain_xml(resources, golden_xml, xml))
    }

    /// Define the worker, once its domain was defined.
    ///
    /// * `domain` - Whether the domain was defined, or the message of libvirt's error
    pub fn define(self, domain: Result<(), String>) -> (r: Result<Defined, Error>)
        ensures
            match domain {
                Ok(_) => r matches Ok(defined) && {
                    &&& self.leads_to(defined.domain_name, defined)
                    &&& defined.domain_name@ == domain_name_of(self.worker@)
                },
                Err(text) => r matches Err(e) && e@ == ErrorView::Virt(text@),
            },
    {
        match domain {
            Ok(_) => Ok(self.mock_define()),
            Err(text) => Err(Error::Virt(text)),
        }
    }

    /// Proceed to the next state as if we actually defined the worker.
    pub fn mock_define(self) -> (r: Defined)
        ensures
            self.leads_to(r.domain_name, r),
            r.domain_name@ == domain_name_of(self.worker@),
    {
        let domain_name: String = self.domain_name();
        self.next_state(domain_name)
    }

    /// Construct a domain name for a this worker.
    pub fn domain_name(&self) -> (r: String)
        ensures
            r@ == domain_name_of(self.worker@),
    {
        join2(WORKER_DOMAIN_NAME_PREFIX, self.worker.as_str())
    }

    /// Find the golden XML definition for a given worker.
    ///
    /// * `golden_dir` - The path to the base golden directory
    /// * `image` - The image information
    /// * `found` - Whether there is a file at the XML's path, or the message of the error in
    ///   finding out
    pub fn find_golden_xml(golden_dir: &str, image: &Image, found: Result<bool, String>) -> (r:
        Result<String, Error>)
        ensures
            match found {
                Ok(true) => r matches Ok(path) && path@ == golden_path_of(
                    golden_dir@,
                    *image,
                    "xml"@,
                ),
                Ok(false) => r matches Err(e) && e@ == ErrorView::Generic(
                    "Failed to find golden XML at path"@ + " '"@ + golden_path_of(
                        golden_dir@,
                        *image,
                        "xml"@,
                    ) + "'"@,
                ),
                Err(text) => r matches Err(e) && e@ == ErrorView::IO(text@),
            },
    {
        existing(
            golden_path(golden_dir, image, "xml"),
            found,
            "Failed to find golden XML at path",
        )
    }
}

} // verus!
