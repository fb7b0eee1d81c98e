//! Identity of the component that reports a fault.

use vstd::prelude::*;
use vstd::string::*;

use super::fixed_string::escaped;
use super::types::ShortString;

verus! {

/// Tags that together identify a reporting entity within a vehicle.
#[derive(Clone, Copy, Debug, Eq, Hash)]
pub struct SourceId {
    /// Logical entity name.
    pub entity: ShortString,
    /// ECU identifier.
    pub ecu: Option<ShortString>,
    /// Domain grouping.
    pub domain: Option<ShortString>,
    /// Software component within the entity.
    pub sw_component: Option<ShortString>,
    /// Discriminator among replicas.
    pub instance: Option<ShortString>,
}

/// A tag as it is printed: nothing when absent, else a space, the label, a colon
/// and the value.
pub open spec fn tag_text(label: Seq<char>, value: Option<ShortString>) -> Seq<char> {
    match value {
        Some(v) => seq![' '] + label + seq![':'] + escaped(v@),
        None => seq![],
    }
}

fn push_tag(out: &mut String, label: &str, value: &Option<ShortString>)
    ensures
        final(out)@ == old(out)@ + tag_text(label@, *value),
{
    match value {
        Some(v) => {
            let text = v.to_string();
            out.push(' ');
            out.append(label);
            out.push(':');
            out.append(text.as_str());
            assert(out@ =~= old(out)@ + tag_text(label@, *value));
        },
        None => {
            assert(out@ =~= old(out)@ + tag_text(label@, *value));
        },
    }
}

impl SourceId {
    /// The printed form of the identity.
    pub open spec fn text(self) -> Seq<char> {
        escaped(self.entity@) + tag_text("ecu"@, self.ecu) + tag_text("dom"@, self.domain)
            + tag_text("comp"@, self.sw_component) + tag_text("inst"@, self.instance)
    }

    /// The entity followed by the tags that are present.
    pub fn to_string(&self) -> (r: String)
        ensures
            r@ == self.text(),
    {
        let mut out = self.entity.to_string();
        push_tag(&mut out, "ecu", &self.ecu);
        push_tag(&mut out, "dom", &self.domain);
        push_tag(&mut out, "comp", &self.sw_component);
        push_tag(&mut out, "inst", &self.instance);
        out
    }
}

impl PartialEq for SourceId {
    fn eq(&self, other: &Self) -> (r: bool) {
        self.entity == other.entity && self.ecu == other.ecu && self.domain == other.domain
            && self.sw_component == other.sw_component && self.instance == other.instance
    }
}

impl vstd::std_specs::cmp::PartialEqSpecImpl for SourceId {
    open spec fn obeys_eq_spec() -> bool {
        true
    }

    open spec fn eq_spec(&self, other: &Self) -> bool {
        *self == *other
    }
}

/// A source prints as its entity and then, each behind a space, the tags that it has: the
/// ECU, the domain, the component and the instance.
pub proof fn law_source_prints_its_tags(source: SourceId)
    ensures
        source.ecu is None && source.domain is None && source.sw_component is None
            && source.instance is None ==> source.text() == escaped(source.entity@),
        source.text() == escaped(source.entity@) + (match source.ecu {
            Some(v) => " ecu:"@ + escaped(v@),
            None => Seq::empty(),
        }) + (match source.domain {
            Some(v) => " dom:"@ + escaped(v@),
            None => Seq::empty(),
        }) + (match source.sw_component {
            Some(v) => " comp:"@ + escaped(v@),
            None => Seq::empty(),
        }) + (match source.instance {
            Some(v) => " inst:"@ + escaped(v@),
            None => Seq::empty(),
        }),
{
    reveal_strlit("ecu");
    reveal_strlit("dom");
    reveal_strlit("comp");
    reveal_strlit("inst");
    reveal_strlit(" ecu:");
    reveal_strlit(" dom:");
    reveal_strlit(" comp:");
    reveal_strlit(" inst:");
    assert(seq![' '] + "ecu"@ + seq![':'] =~= " ecu:"@);
    assert(seq![' '] + "dom"@ + seq![':'] =~= " dom:"@);
    assert(seq![' '] + "comp"@ + seq![':'] =~= " comp:"@);
    assert(seq![' '] + "inst"@ + seq![':'] =~= " inst:"@);
    if source.ecu is None && source.domain is None && source.sw_component is None
        && source.instance is None {
        assert(source.text() =~= escaped(source.entity@));
    }
}

/// Sources are compared by all of their tags.
pub proof fn law_sources_are_compared_by_their_tags(a: SourceId, b: SourceId)
    ensures
        vstd::std_specs::cmp::PartialEqSpec::eq_spec(&a, &b) <==> a.entity == b.entity && a.ecu
            == b.ecu && a.domain == b.domain && a.sw_component == b.sw_component && a.instance
            == b.instance,
{
}

} // verus!
