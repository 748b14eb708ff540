use vstd::prelude::*;
use vstd::string::StringExecFns;

verus! {

/// The text that short-uuid gives for the UUID with these 128 bits.
pub uninterp spec fn short_uuid_text(bits: u128) -> Seq<char>;

/// Relies on uuid::Uuid::new_v4: a random version-4 UUID, handed on as its
/// 128 bits. Nothing is promised of the bits.
#[verifier::external_body]
fn random_uuid_bits() -> (r: u128) {
    uuid::Uuid::new_v4().as_u128()
}

/// Relies on short_uuid::ShortUuid::from_uuid and its `Display`: the short
/// text of a UUID depends on the UUID alone.
#[verifier::external_body]
fn short_uuid(bits: u128) -> (r: String)
    ensures
        r@ == short_uuid_text(bits),
{
    short_uuid::ShortUuid::from_uuid(&uuid::Uuid::from_u128(bits)).to_string()
}

/// The identity of one accordion section: its value, the token behind its
/// default element ids, and the ids that callers chose instead.
#[derive(Debug, Clone)]
pub struct AccordianItemState {
    value: String,
    id: String,
    trigger_id: Option<String>,
    content_id: Option<String>,
    disabled: bool,
}

/// The id of the trigger of the section with token `id`, unless overridden.
pub open spec fn trigger_id_of(over: Option<String>, id: Seq<char>) -> Seq<char> {
    match over {
        Some(t) => t@,
        None => "meek-accordian-trigger-"@ + id,
    }
}

/// The id of the content of the section with token `id`, unless overridden.
pub open spec fn content_id_of(over: Option<String>, id: Seq<char>) -> Seq<char> {
    match over {
        Some(t) => t@,
        None => "meek-accordian-content-"@ + id,
    }
}

fn prefixed(prefix: &str, token: &String) -> (r: String)
    ensures
        r@ == prefix@ + token@,
{
    let head = prefix.to_string();
    proof {
        vstd::string::to_string_from_display_ensures_for_str(prefix, head);
    }
    head.concat(token.as_str())
}

impl AccordianItemState {
    pub closed spec fn spec_value(&self) -> Seq<char> {
        self.value@
    }

    pub closed spec fn spec_disabled(&self) -> bool {
        self.disabled
    }

    pub closed spec fn spec_token(&self) -> Seq<char> {
        self.id@
    }

    pub closed spec fn spec_trigger_id(&self) -> Seq<char> {
        trigger_id_of(self.trigger_id, self.id@)
    }

    pub closed spec fn spec_content_id(&self) -> Seq<char> {
        content_id_of(self.content_id, self.id@)
    }

    /// A section whose token is `id` when given, else the short text of the
    /// UUID with bits `uuid`.
    pub fn with_uuid(value: &str, id: Option<String>, uuid: u128, disabled: bool) -> (r: Self)
        ensures
            r.spec_value() == value@,
            r.spec_token() == match id {
                Some(i) => i@,
                None => short_uuid_text(uuid),
            },
            r.spec_trigger_id() == "meek-accordian-trigger-"@ + r.spec_token(),
            r.spec_content_id() == "meek-accordian-content-"@ + r.spec_token(),
            r.spec_disabled() == disabled,
    {
        let v = value.to_string();
        proof {
            vstd::string::to_string_from_display_ensures_for_str(value, v);
        }
        let token = match id {
            Some(i) => i,
            None => short_uuid(uuid),
        };
        AccordianItemState { value: v, id: token, trigger_id: None, content_id: None, disabled }
    }

    /// A section whose token is `id` when given, else drawn at random.
    pub fn new(value: &str, id: Option<String>, disabled: bool) -> (r: Self)
        ensures
            r.spec_value() == value@,
            id is Some ==> r.spec_token() == id->Some_0@,
            r.spec_trigger_id() == "meek-accordian-trigger-"@ + r.spec_token(),
            r.spec_content_id() == "meek-accordian-content-"@ + r.spec_token(),
            r.spec_disabled() == disabled,
    {
        match id {
            Some(i) => Self::with_uuid(value, Some(i), 0, disabled),
            None => Self::with_uuid(value, None, random_uuid_bits(), disabled),
        }
    }

    /// Whether the section was made disabled.
    pub fn disabled(&self) -> (r: bool)
        ensures
            r == self.spec_disabled(),
    {
        self.disabled
    }

    /// The section's value.
    pub fn value(&self) -> (r: &str)
        ensures
            r@ == self.spec_value(),
    {
        self.value.as_str()
    }

    /// The id of the section's element.
    pub fn id(&self) -> (r: String)
        ensures
            r@ == "meek-accordian-:"@ + self.spec_token() + ":"@,
    {
        let head = prefixed("meek-accordian-:", &self.id);
        head.concat(":")
    }

    /// The id of the section's trigger.
    pub fn trigger_id(&self) -> (r: String)
        ensures
            r@ == self.spec_trigger_id(),
    {
        match &self.trigger_id {
            Some(t) => t.clone(),
            None => prefixed("meek-accordian-trigger-", &self.id),
        }
    }

    /// The id of the section's content.
    pub fn content_id(&self) -> (r: String)
        ensures
            r@ == self.spec_content_id(),
    {
        match &self.content_id {
            Some(t) => t.clone(),
            None => prefixed("meek-accordian-content-", &self.id),
        }
    }

    /// Makes `id` the trigger's id from now on.
    pub fn set_trigger_id(&mut self, id: String)
        ensures
            final(self).spec_trigger_id() == id@,
            final(self).spec_content_id() == old(self).spec_content_id(),
            final(self).spec_value() == old(self).spec_value(),
            final(self).spec_token() == old(self).spec_token(),
            final(self).spec_disabled() == old(self).spec_disabled(),
    {
        self.trigger_id = Some(id);
    }

    /// Makes `id` the content's id from now on.
    pub fn set_content_id(&mut self, id: String)
        ensures
            final(self).spec_content_id() == id@,
            final(self).spec_trigger_id() == old(self).spec_trigger_id(),
            final(self).spec_value() == old(self).spec_value(),
            final(self).spec_token() == old(self).spec_token(),
            final(self).spec_disabled() == old(self).spec_disabled(),
    {
        self.content_id = Some(id);
    }
}

} // verus!
