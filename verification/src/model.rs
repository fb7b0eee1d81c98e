//! Fault reports that a call site adjusts before they are logged: declared defaults, and
//! what overrides them for one report.

use vstd::prelude::*;
use vstd::string::*;

use crate::common::config::ResetPolicy;
use crate::common::debounce::DebouncePolicy;
use crate::common::fault::{
    ComplianceTag, FaultId, FaultSeverity, FaultType, IpcTimestamp, LifecyclePhase,
};
use crate::common::fixed_string::escaped;
use crate::common::ids::SourceId;
use crate::common::types::ShortString;

verus! {

/// State of a reported fault.
#[derive(Clone, Copy, Debug, PartialEq, Eq, Hash, Structural)]
pub enum FaultLifecycleStage {
    /// Newly observed; it may still be filtered.
    Raised,
    /// Confirmed and visible.
    Active,
    /// Kept until it may be reset.
    Latched,
    /// Gone.
    Cleared,
}

/// A piece of metadata.
#[derive(Debug)]
pub struct KeyValue {
    /// Name.
    pub key: String,
    /// Value.
    pub value: String,
}

/// Declared defaults of a fault.
#[derive(Debug)]
pub struct FaultDescriptor {
    /// Identifier.
    pub id: FaultId,
    /// Name.
    pub name: String,
    /// Kind.
    pub fault_type: FaultType,
    /// Severity, unless a report says otherwise.
    pub default_severity: FaultSeverity,
    /// Compliance tags.
    pub compliance: Vec<ComplianceTag>,
    /// Filter, unless a report says otherwise.
    pub debounce: Option<DebouncePolicy>,
    /// Reset rule, unless a report says otherwise.
    pub reset: Option<ResetPolicy>,
    /// For humans.
    pub summary: Option<String>,
    /// Where to read more.
    pub docs_url: Option<String>,
}

/// A list of declared faults.
#[derive(Debug)]
pub struct FaultCatalog {
    /// Identifier of the list.
    pub id: String,
    /// Revision.
    pub version: u64,
    /// The faults.
    pub descriptors: Vec<FaultDescriptor>,
}

/// The place of the first fault with the given identifier.
pub open spec fn first_with(descriptors: Seq<FaultDescriptor>, id: FaultId, i: int) -> bool {
    &&& 0 <= i < descriptors.len()
    &&& descriptors[i].id == id
    &&& forall|j: int| 0 <= j < i ==> (#[trigger] descriptors[j]).id != id
}

impl FaultCatalog {
    /// One of the faults has the given identifier.
    pub open spec fn declares(self, id: FaultId) -> bool {
        exists|i: int| 0 <= i < self.descriptors@.len() && (#[trigger] self.descriptors@[i]).id == id
    }

    /// A list of faults.
    pub fn new(id: String, version: u64, descriptors: Vec<FaultDescriptor>) -> (r: Self)
        ensures
            r.id == id,
            r.version == version,
            r.descriptors == descriptors,
    {
        FaultCatalog { id, version, descriptors }
    }

    /// The first fault with the given identifier.
    pub fn find(&self, id: &FaultId) -> (r: Option<&FaultDescriptor>)
        ensures
            match r {
                Some(d) => exists|i: int| #[trigger]
                    first_with(self.descriptors@, *id, i) && *d == self.descriptors@[i],
                None => !self.declares(*id),
            },
    {
        let mut i: usize = 0;
        while i < self.descriptors.len()
            invariant
                i <= self.descriptors@.len(),
                forall|j: int| 0 <= j < i ==> (#[trigger] self.descriptors@[j]).id != *id,
            decreases self.descriptors@.len() - i,
        {
            if self.descriptors[i].id == *id {
                assert(first_with(self.descriptors@, *id, i as int));
                return Some(&self.descriptors[i]);
            }
            i += 1;
        }
        None
    }

    /// Number of faults.
    pub fn len(&self) -> (r: usize)
        ensures
            r == self.descriptors@.len(),
    {
        self.descriptors.len()
    }

    /// There are no faults.
    pub fn is_empty(&self) -> (r: bool)
        ensures
            r == (self.descriptors@.len() == 0),
    {
        self.descriptors.len() == 0
    }
}

/// What overrides the defaults of a fault for one report.
#[derive(Debug)]
pub struct ReportOptions {
    /// Severity, if not the default one.
    pub severity: Option<FaultSeverity>,
    /// More metadata.
    pub metadata: Vec<KeyValue>,
    /// Filter, if not the default one.
    pub debounce: Option<DebouncePolicy>,
    /// Reset rule, if not the default one.
    pub reset: Option<ResetPolicy>,
    /// More compliance tags.
    pub extra_compliance: Vec<ComplianceTag>,
}

impl Default for ReportOptions {
    /// Nothing is overridden.
    fn default() -> (r: Self)
        ensures
            r.severity is None,
            r.metadata@ == Seq::<KeyValue>::empty(),
            r.debounce is None,
            r.reset is None,
            r.extra_compliance@ == Seq::<ComplianceTag>::empty(),
    {
        ReportOptions {
            severity: None,
            metadata: Vec::new(),
            debounce: None,
            reset: None,
            extra_compliance: Vec::new(),
        }
    }
}

/// One report of a fault, with what applies to it.
#[derive(Debug)]
pub struct FaultRecord {
    /// When it was made.
    pub time: IpcTimestamp,
    /// The declaration of the fault.
    pub descriptor: FaultDescriptor,
    /// Severity.
    pub severity: FaultSeverity,
    /// Who reports.
    pub source: SourceId,
    /// Phase of the reporting component.
    pub lifecycle_phase: LifecyclePhase,
    /// Metadata.
    pub metadata: Vec<KeyValue>,
    /// Identifier of the list that declares the fault.
    pub catalog_id: String,
    /// Revision of that list.
    pub catalog_version: u64,
    /// Compliance tags.
    pub compliance: Vec<ComplianceTag>,
    /// Filter.
    pub effective_debounce: Option<DebouncePolicy>,
    /// Reset rule.
    pub effective_reset: Option<ResetPolicy>,
}

/// A copy of the tags.
fn copy_tags(tags: &Vec<ComplianceTag>) -> (r: Vec<ComplianceTag>)
    ensures
        r@ == tags@,
{
    let mut out: Vec<ComplianceTag> = Vec::new();
    let mut i: usize = 0;
    while i < tags.len()
        invariant
            i <= tags@.len(),
            out@ == tags@.take(i as int),
        decreases tags@.len() - i,
    {
        out.push(tags[i]);
        i += 1;
        assert(out@ =~= tags@.take(i as int));
    }
    assert(out@ =~= tags@);
    out
}

/// The text of an optional string.
pub open spec fn text_of(s: Option<String>) -> Option<Seq<char>> {
    match s {
        Some(t) => Some(t@),
        None => None,
    }
}

/// The two declare the same fault with the same defaults.
pub open spec fn same_declaration(a: FaultDescriptor, b: FaultDescriptor) -> bool {
    &&& a.id == b.id
    &&& a.name@ == b.name@
    &&& a.fault_type == b.fault_type
    &&& a.default_severity == b.default_severity
    &&& a.compliance@ == b.compliance@
    &&& a.debounce == b.debounce
    &&& a.reset == b.reset
    &&& text_of(a.summary) == text_of(b.summary)
    &&& text_of(a.docs_url) == text_of(b.docs_url)
}

/// A copy of an optional text.
fn copy_text(s: &Option<String>) -> (r: Option<String>)
    ensures
        text_of(r) == text_of(*s),
{
    match s {
        Some(t) => Some(t.clone()),
        None => None,
    }
}

/// A copy of a declaration.
fn copy_descriptor(d: &FaultDescriptor) -> (r: FaultDescriptor)
    ensures
        same_declaration(r, *d),
{
    FaultDescriptor {
        id: d.id,
        name: d.name.clone(),
        fault_type: d.fault_type,
        default_severity: d.default_severity,
        compliance: copy_tags(&d.compliance),
        debounce: d.debounce,
        reset: d.reset,
        summary: copy_text(&d.summary),
        docs_url: copy_text(&d.docs_url),
    }
}

/// A tag of a source, or a hyphen if it is not given.
pub open spec fn tag_text(tag: Option<ShortString>) -> Seq<char> {
    match tag {
        Some(t) => escaped(t@),
        None => "-"@,
    }
}

/// A source with all its tags in one line.
pub open spec fn source_line(source: SourceId) -> Seq<char> {
    escaped(source.entity@) + "@ecu:"@ + tag_text(source.ecu) + " dom:"@ + tag_text(source.domain)
        + " comp:"@ + tag_text(source.sw_component) + " inst:"@ + tag_text(source.instance)
}

fn append_tag(out: &mut String, label: &str, tag: &Option<ShortString>)
    ensures
        final(out)@ == old(out)@ + label@ + tag_text(*tag),
{
    out.append(label);
    match tag {
        Some(t) => {
            let text = t.to_string();
            out.append(text.as_str());
        },
        None => out.append("-"),
    }
}

/// Who reports, with all tags in one line; a tag that is not given is a hyphen.
pub fn describe_source(source: &SourceId) -> (r: String)
    ensures
        r@ == source_line(*source),
{
    let mut out = source.entity.to_string();
    append_tag(&mut out, "@ecu:", &source.ecu);
    append_tag(&mut out, " dom:", &source.domain);
    append_tag(&mut out, " comp:", &source.sw_component);
    append_tag(&mut out, " inst:", &source.instance);
    out
}

impl FaultRecord {
    /// A report of a declared fault, with its defaults.
    pub fn new(
        catalog: &FaultCatalog,
        id: &FaultId,
        source: SourceId,
        lifecycle_phase: LifecyclePhase,
        metadata: Vec<KeyValue>,
        time: IpcTimestamp,
    ) -> (r: Self)
        requires
            catalog.declares(*id),
        ensures
            exists|i: int| #[trigger]
                first_with(catalog.descriptors@, *id, i) && {
                    let d = catalog.descriptors@[i];
                    &&& r.time == time
                    &&& same_declaration(r.descriptor, d)
                    &&& r.severity == d.default_severity
                    &&& r.source == source
                    &&& r.lifecycle_phase == lifecycle_phase
                    &&& r.metadata == metadata
                    &&& r.catalog_id@ == catalog.id@
                    &&& r.catalog_version == catalog.version
                    &&& r.compliance@ == d.compliance@
                    &&& r.effective_debounce == d.debounce
                    &&& r.effective_reset == d.reset
                },
    {
        let d: &FaultDescriptor = catalog.find(id).unwrap();
        FaultRecord {
            time,
            descriptor: copy_descriptor(d),
            severity: d.default_severity,
            source,
            lifecycle_phase,
            metadata,
            catalog_id: catalog.id.clone(),
            catalog_version: catalog.version,
            compliance: copy_tags(&d.compliance),
            effective_debounce: d.debounce,
            effective_reset: d.reset,
        }
    }

    /// The report with the given filter, or with the default one.
    pub fn with_debounce(self, debounce: Option<DebouncePolicy>) -> (r: Self)
        ensures
            r == (FaultRecord {
                effective_debounce: if debounce is Some {
                    debounce
                } else {
                    self.descriptor.debounce
                },
                ..self
            }),
    {
        let effective_debounce: Option<DebouncePolicy> = match debounce {
            Some(_) => debounce,
            None => self.descriptor.debounce,
        };
        FaultRecord { effective_debounce, ..self }
    }

    /// The report with more compliance tags behind those that it has.
    pub fn with_extra_compliance(self, extra_compliance: Vec<ComplianceTag>) -> (r: Self)
        ensures
            r.compliance@ == self.compliance@ + extra_compliance@,
            r == (FaultRecord { compliance: r.compliance, ..self }),
    {
        let mut compliance = copy_tags(&self.compliance);
        let mut i: usize = 0;
        assert(compliance@ =~= self.compliance@ + extra_compliance@.take(0));
        while i < extra_compliance.len()
            invariant
                i <= extra_compliance@.len(),
                compliance@ == self.compliance@ + extra_compliance@.take(i as int),
            decreases extra_compliance@.len() - i,
        {
            compliance.push(extra_compliance[i]);
            i += 1;
            assert(compliance@ =~= self.compliance@ + extra_compliance@.take(i as int));
        }
        assert(extra_compliance@.take(i as int) =~= extra_compliance@);
        FaultRecord { compliance, ..self }
    }

    /// The report with one more piece of metadata behind those that it has.
    pub fn with_metadata(self, key: String, value: String) -> (r: Self)
        ensures
            r.metadata@ == self.metadata@.push((KeyValue { key, value })),
            r == (FaultRecord { metadata: r.metadata, ..self }),
    {
        let mut rec = self;
        rec.metadata.push(KeyValue { key, value });
        rec
    }

    /// The report with the given reset rule, or with the default one.
    pub fn with_reset(self, reset: Option<ResetPolicy>) -> (r: Self)
        ensures
            r == (FaultRecord {
                effective_reset: if reset is Some {
                    reset
                } else {
                    self.descriptor.reset
                },
                ..self
            }),
    {
        let effective_reset: Option<ResetPolicy> = match reset {
            Some(_) => reset,
            None => self.descriptor.reset,
        };
        FaultRecord { effective_reset, ..self }
    }

    /// The report with the given severity, or with the default one.
    pub fn with_severity(self, fault_severity: Option<FaultSeverity>) -> (r: Self)
        ensures
            r == (FaultRecord {
                severity: match fault_severity {
                    Some(s) => s,
                    None => self.descriptor.default_severity,
                },
                ..self
            }),
    {
        let severity: FaultSeverity = match fault_severity {
            Some(s) => s,
            None => self.descriptor.default_severity,
        };
        FaultRecord { severity, ..self }
    }
}

/// A fault is found by its identifier exactly if it is declared, and it is the first one
/// with the identifier.
pub proof fn law_first_declaration_is_found(
    catalog: FaultCatalog,
    id: FaultId,
    r: Option<&FaultDescriptor>,
    j: int,
)
    requires
        call_ensures(FaultCatalog::find, (&catalog, &id), r),
    ensures
        r is Some <==> exists|i: int|
            0 <= i < catalog.descriptors@.len() && (#[trigger] catalog.descriptors@[i]).id == id,
        r matches Some(d) ==> d.id == id && exists|i: int|
            0 <= i < catalog.descriptors@.len() && *d == #[trigger] catalog.descriptors@[i] && (0
                <= j < i ==> catalog.descriptors@[j].id != id),
{
    if let Some(d) = r {
        let i = choose|i: int| #[trigger]
            first_with(catalog.descriptors@, id, i) && *d == catalog.descriptors@[i];
        assert(*d == catalog.descriptors@[i]);
        assert(0 <= j < i ==> catalog.descriptors@[j].id != id);
    }
}

/// A report starts with the defaults of its fault: severity, compliance tags, filter and
/// reset rule are those of the declaration, and it names the list with its revision.
pub proof fn law_report_starts_with_the_defaults(
    catalog: FaultCatalog,
    id: FaultId,
    source: SourceId,
    phase: LifecyclePhase,
    metadata: Vec<KeyValue>,
    time: IpcTimestamp,
    r: FaultRecord,
)
    requires
        catalog.declares(id),
        call_ensures(FaultRecord::new, (&catalog, &id, source, phase, metadata, time), r),
    ensures
        r.time == time,
        r.source == source,
        r.lifecycle_phase == phase,
        r.metadata == metadata,
        r.catalog_id@ == catalog.id@,
        r.catalog_version == catalog.version,
        r.descriptor.id == id,
        r.severity == r.descriptor.default_severity,
        r.compliance@ == r.descriptor.compliance@,
        r.effective_debounce == r.descriptor.debounce,
        r.effective_reset == r.descriptor.reset,
        exists|i: int|
            0 <= i < catalog.descriptors@.len() && {
                let d = #[trigger] catalog.descriptors@[i];
                &&& d.id == id
                &&& d.name@ == r.descriptor.name@
                &&& d.fault_type == r.descriptor.fault_type
                &&& d.default_severity == r.descriptor.default_severity
                &&& d.compliance@ == r.descriptor.compliance@
                &&& d.debounce == r.descriptor.debounce
                &&& d.reset == r.descriptor.reset
                &&& d.summary is Some == r.descriptor.summary is Some
                &&& d.summary matches Some(t) ==> r.descriptor.summary->0@ == t@
                &&& d.docs_url is Some == r.descriptor.docs_url is Some
                &&& d.docs_url matches Some(t) ==> r.descriptor.docs_url->0@ == t@
            },
{
    let i = choose|i: int| #[trigger]
        first_with(catalog.descriptors@, id, i) && {
            let d = catalog.descriptors@[i];
            &&& r.time == time
            &&& same_declaration(r.descriptor, d)
            &&& r.severity == d.default_severity
            &&& r.source == source
            &&& r.lifecycle_phase == phase
            &&& r.metadata == metadata
            &&& r.catalog_id@ == catalog.id@
            &&& r.catalog_version == catalog.version
            &&& r.compliance@ == d.compliance@
            &&& r.effective_debounce == d.debounce
            &&& r.effective_reset == d.reset
        };
    assert(catalog.descriptors@[i].id == id);
}

/// What is given for one report overrides the default and touches nothing else; what is
/// not given falls back to the default. Tags and metadata are added behind the others.
pub proof fn law_overrides(
    record: FaultRecord,
    debounce: Option<DebouncePolicy>,
    reset: Option<ResetPolicy>,
    severity: Option<FaultSeverity>,
    tags: Vec<ComplianceTag>,
    key: String,
    value: String,
    a: FaultRecord,
    b: FaultRecord,
    c: FaultRecord,
    d: FaultRecord,
    e: FaultRecord,
)
    requires
        call_ensures(FaultRecord::with_debounce, (record, debounce), a),
        call_ensures(FaultRecord::with_reset, (record, reset), b),
        call_ensures(FaultRecord::with_severity, (record, severity), c),
        call_ensures(FaultRecord::with_extra_compliance, (record, tags), d),
        call_ensures(FaultRecord::with_metadata, (record, key, value), e),
    ensures
        debounce is Some ==> a.effective_debounce == debounce,
        debounce is None ==> a.effective_debounce == record.descriptor.debounce,
        a == (FaultRecord { effective_debounce: a.effective_debounce, ..record }),
        reset is Some ==> b.effective_reset == reset,
        reset is None ==> b.effective_reset == record.descriptor.reset,
        b == (FaultRecord { effective_reset: b.effective_reset, ..record }),
        severity matches Some(s) ==> c.severity == s,
        severity is None ==> c.severity == record.descriptor.default_severity,
        c == (FaultRecord { severity: c.severity, ..record }),
        d.compliance@ == record.compliance@ + tags@,
        d == (FaultRecord { compliance: d.compliance, ..record }),
        e.metadata@.len() == record.metadata@.len() + 1,
        e.metadata@.drop_last() == record.metadata@,
        e.metadata@.last().key == key && e.metadata@.last().value == value,
        e == (FaultRecord { metadata: e.metadata, ..record }),
{
    assert(e.metadata@.drop_last() =~= record.metadata@);
}

/// The line of a source has its entity and all four tags in their order, with a hyphen for
/// each one that is not given.
pub proof fn law_source_line(source: SourceId, r: String)
    requires
        call_ensures(describe_source, (&source,), r),
    ensures
        r@ == escaped(source.entity@) + "@ecu:"@ + (match source.ecu {
            Some(t) => escaped(t@),
            None => "-"@,
        }) + " dom:"@ + (match source.domain {
            Some(t) => escaped(t@),
            None => "-"@,
        }) + " comp:"@ + (match source.sw_component {
            Some(t) => escaped(t@),
            None => "-"@,
        }) + " inst:"@ + (match source.instance {
            Some(t) => escaped(t@),
            None => "-"@,
        }),
{
}

} // verus!
