//! The data that fills a mail template: field names and their values.
use crate::project::ReleaseInfo;
use crate::text::chars_of;
use crate::text::first_true;
use crate::text::join;
use crate::text::joined;
use crate::text::lemma_first_true_unique;
use crate::text::string_of;
use vstd::prelude::*;
use vstd::string::StringExecFns;

verus! {

/// A list of fields read as a mapping: each pair sets its name to its
/// value, a later pair replacing what an earlier one set.
pub open spec fn fields_map(pairs: Seq<(Seq<char>, Seq<char>)>) -> Map<Seq<char>, Seq<char>>
    decreases pairs.len(),
{
    if pairs.len() == 0 {
        Map::empty()
    } else {
        fields_map(pairs.drop_last()).insert(pairs.last().0, pairs.last().1)
    }
}

/// The mapping `base` after the pairs were set one by one, in order.
pub open spec fn with_fields(base: Map<Seq<char>, Seq<char>>, pairs: Seq<(Seq<char>, Seq<char>)>)
    -> Map<Seq<char>, Seq<char>>
    decreases pairs.len(),
{
    if pairs.len() == 0 {
        base
    } else {
        with_fields(base, pairs.drop_last()).insert(pairs.last().0, pairs.last().1)
    }
}

/// Setting pairs one by one gives a name the value of the last pair that
/// carries it, whatever the mapping held before.
pub proof fn lemma_with_fields_sets(
    base: Map<Seq<char>, Seq<char>>,
    pairs: Seq<(Seq<char>, Seq<char>)>,
    i: int,
)
    requires
        0 <= i < pairs.len(),
        forall|j: int| i < j < pairs.len() ==> pairs[j].0 != pairs[i].0,
    ensures
        with_fields(base, pairs).contains_key(pairs[i].0),
        with_fields(base, pairs)[pairs[i].0] == pairs[i].1,
    decreases pairs.len(),
{
    if i < pairs.len() - 1 {
        let front = pairs.drop_last();
        assert(front[i] == pairs[i]);
        assert(forall|j: int| i < j < front.len() ==> front[j] == pairs[j]);
        lemma_with_fields_sets(base, front, i);
    }
}

/// Setting pairs one by one leaves a name that none of them carries as it
/// was.
pub proof fn lemma_with_fields_keeps(
    base: Map<Seq<char>, Seq<char>>,
    pairs: Seq<(Seq<char>, Seq<char>)>,
    key: Seq<char>,
)
    requires
        forall|j: int| 0 <= j < pairs.len() ==> pairs[j].0 != key,
    ensures
        with_fields(base, pairs).contains_key(key) == base.contains_key(key),
        with_fields(base, pairs)[key] == base[key],
    decreases pairs.len(),
{
    if pairs.len() > 0 {
        let front = pairs.drop_last();
        assert(forall|j: int| 0 <= j < front.len() ==> front[j] == pairs[j]);
        lemma_with_fields_keeps(base, front, key);
    }
}

/// The fields of a mail: a mapping from names to values, held as one pair
/// for each name, in the order in which the names first came.
pub struct TemplateContext {
    entries: Vec<(String, String)>,
}

/// The entries as pairs of character sequences.
pub open spec fn entries_view(entries: Seq<(String, String)>) -> Seq<(Seq<char>, Seq<char>)> {
    entries.map_values(|e: (String, String)| (e.0@, e.1@))
}

impl View for TemplateContext {
    type V = Map<Seq<char>, Seq<char>>;

    closed spec fn view(&self) -> Map<Seq<char>, Seq<char>> {
        fields_map(entries_view(self.entries@))
    }
}

/// Replacing the value of the last pair that carries a name sets that name.
proof fn lemma_fields_map_update(pairs: Seq<(Seq<char>, Seq<char>)>, i: int, value: Seq<char>)
    requires
        0 <= i < pairs.len(),
        forall|j: int| i < j < pairs.len() ==> pairs[j].0 != pairs[i].0,
    ensures
        fields_map(pairs.update(i, (pairs[i].0, value))) == fields_map(pairs).insert(
            pairs[i].0,
            value,
        ),
    decreases pairs.len(),
{
    let updated = pairs.update(i, (pairs[i].0, value));
    if i == pairs.len() - 1 {
        assert(updated.drop_last() =~= pairs.drop_last());
        assert(fields_map(updated) =~= fields_map(pairs).insert(pairs[i].0, value));
    } else {
        let front = pairs.drop_last();
        assert(front[i] == pairs[i]);
        assert(forall|j: int| i < j < front.len() ==> front[j] == pairs[j]);
        lemma_fields_map_update(front, i, value);
        assert(updated.drop_last() =~= front.update(i, (pairs[i].0, value)));
        assert(fields_map(updated) =~= fields_map(pairs).insert(pairs[i].0, value));
    }
}

/// A list of fields is what setting its pairs on the empty mapping gives.
proof fn lemma_fields_map_is_with_fields(pairs: Seq<(Seq<char>, Seq<char>)>)
    ensures
        fields_map(pairs) == with_fields(Map::empty(), pairs),
    decreases pairs.len(),
{
    if pairs.len() > 0 {
        lemma_fields_map_is_with_fields(pairs.drop_last());
    }
}

/// Whether no two pairs carry the same name.
pub open spec fn distinct_names(pairs: Seq<(Seq<char>, Seq<char>)>) -> bool {
    forall|i: int, j: int| 0 <= i < j < pairs.len() ==> pairs[i].0 != pairs[j].0
}

impl TemplateContext {
    /// No two entries carry the same name.
    #[verifier::type_invariant]
    spec fn names_are_distinct(self) -> bool {
        distinct_names(entries_view(self.entries@))
    }

    /// A context without fields.
    pub fn new() -> (c: TemplateContext)
        ensures
            c@ == Map::<Seq<char>, Seq<char>>::empty(),
    {
        TemplateContext { entries: Vec::new() }
    }

    /// The entries behind the mapping: one pair of a name and a value for
    /// each field.
    pub(crate) fn entries(&self) -> (entries: &Vec<(String, String)>)
        ensures
            fields_map(entries_view(entries@)) == self@,
            distinct_names(entries_view(entries@)),
    {
        proof {
            use_type_invariant(self);
        }
        &self.entries
    }

    /// The index of the last entry named `key`, or the number of entries
    /// where there is none.
    fn position(&self, key: &String) -> (i: usize)
        ensures
            i <= self.entries.len(),
            i < self.entries.len() ==> self.entries[i as int].0@ == key@,
            forall|j: int| i < j < self.entries.len() ==> self.entries[j].0@ != key@,
            i == self.entries.len() ==> forall|j: int|
                0 <= j < self.entries.len() ==> self.entries[j].0@ != key@,
    {
        let n = self.entries.len();
        let mut i = n;
        while i > 0
            invariant
                i <= n,
                n == self.entries.len(),
                forall|j: int| i <= j < n ==> self.entries[j].0@ != key@,
            decreases i,
        {
            if self.entries[i - 1].0 == *key {
                return i - 1;
            }
            i -= 1;
        }
        n
    }

    /// Sets the field `key` to `value`, replacing what it held: the pair
    /// of that name takes the value, or a new pair is added behind the
    /// others.
    pub fn insert(&mut self, key: &str, value: String)
        ensures
            final(self)@ == old(self)@.insert(key@, value@),
    {
        proof {
            use_type_invariant(&*self);
        }
        let key = key.to_owned();
        let i = self.position(&key);
        let ghost before = entries_view(self.entries@);
        proof {
            assert(i < before.len() ==> before[i as int].0 == key@);
            assert(forall|j: int| 0 <= j < before.len() && j != i ==> before[j].0 != key@) by {
                assert(forall|j: int|
                    0 <= j < before.len() ==> before[j].0 == (#[trigger] self.entries[j]).0@);
            }
        }
        let mut entries: Vec<(String, String)> = Vec::new();
        core::mem::swap(&mut self.entries, &mut entries);
        if i < entries.len() {
            entries.set(i, (key, value));
            proof {
                lemma_fields_map_update(before, i as int, value@);
                assert(entries_view(entries@) =~= before.update(i as int, (key@, value@)));
            }
        } else {
            entries.push((key, value));
            proof {
                assert(entries_view(entries@) =~= before.push((key@, value@)));
                assert(entries_view(entries@).drop_last() =~= before);
            }
        }
        assert(distinct_names(entries_view(entries@)));
        self.entries = entries;
    }

    /// The value of the field `key`, if it is set.
    pub fn get(&self, key: &str) -> (r: Option<String>)
        ensures
            match r {
                Some(v) => self@.contains_key(key@) && v@ == self@[key@],
                None => !self@.contains_key(key@),
            },
    {
        let key = key.to_owned();
        let i = self.position(&key);
        let ghost pairs = entries_view(self.entries@);
        if i < self.entries.len() {
            proof {
                lemma_fields_map_is_with_fields(pairs);
                lemma_with_fields_sets(Map::empty(), pairs, i as int);
            }
            Some(self.entries[i].1.clone())
        } else {
            proof {
                lemma_fields_map_is_with_fields(pairs);
                lemma_with_fields_keeps(Map::empty(), pairs, key@);
            }
            None
        }
    }
}

/// The heading and fence that the changelog's words are set in.
pub open spec fn news_text(changelog: Seq<char>) -> Seq<char> {
    "What's new?\n\n```\n"@ + changelog + "```"@
}

/// Collects the fields of a mail.
pub struct MailDataBuilder {
    data: TemplateContext,
}

impl View for MailDataBuilder {
    type V = Map<Seq<char>, Seq<char>>;

    closed spec fn view(&self) -> Map<Seq<char>, Seq<char>> {
        self.data@
    }
}

impl MailDataBuilder {
    /// A builder that holds the field `prefix` alone, set to `ANNOUNCE`.
    pub fn new() -> (b: MailDataBuilder)
        ensures
            b@ == Map::<Seq<char>, Seq<char>>::empty().insert("prefix"@, "ANNOUNCE"@),
    {
        let mut data = TemplateContext::new();
        data.insert("prefix", "ANNOUNCE".to_owned());
        MailDataBuilder { data }
    }

    /// Sets the sender.
    pub fn emitter(&mut self, emitter: &str) -> (b: &mut MailDataBuilder)
        ensures
            b@ == old(self)@.insert("emitter"@, emitter@),
            *final(self) == *final(b),
    {
        self.data.insert("emitter", emitter.to_owned());
        self
    }

    /// Sets the recipients: their addresses, separated by a comma and a
    /// space.
    pub fn recipients(&mut self, recipients: &Vec<String>) -> (b: &mut MailDataBuilder)
        ensures
            b@ == old(self)@.insert("recipients"@, joined(recipients.deep_view(), ", "@)),
            *final(self) == *final(b),
    {
        self.data.insert("recipients", join(recipients, ", "));
        self
    }

    /// Sets what is known of the release: the project, its URL, the
    /// version, and the changelog's words inside a fence.
    pub fn info(&mut self, info: &ReleaseInfo) -> (b: &mut MailDataBuilder)
        ensures
            b@ == old(self)@.insert("project"@, info.project@).insert("url"@, info.url@).insert(
                "version"@,
                info.version@,
            ).insert("text"@, news_text(info.changelog@)),
            *final(self) == *final(b),
    {
        self.data.insert("project", info.project.clone());
        self.data.insert("url", info.url.clone());
        self.data.insert("version", info.version.clone());
        let text = "What's new?\n\n```\n".to_owned().concat(info.changelog.as_str()).concat("```");
        self.data.insert("text", text);
        self
    }

    /// Sets the signature.
    pub fn signature(&mut self, text: &str) -> (b: &mut MailDataBuilder)
        ensures
            b@ == old(self)@.insert("signature"@, text@),
            *final(self) == *final(b),
    {
        self.data.insert("signature", text.to_owned());
        self
    }

    /// Sets the given fields one by one, in order: each replaces what its
    /// name held, be it from an earlier call or an earlier pair.
    pub fn extra(&mut self, data: &Vec<(String, String)>) -> (b: &mut MailDataBuilder)
        ensures
            b@ == with_fields(old(self)@, entries_view(data@)),
            *final(self) == *final(b),
    {
        let ghost all = entries_view(data@);
        let mut i: usize = 0;
        while i < data.len()
            invariant
                i <= data.len(),
                all == entries_view(data@),
                self@ == with_fields(old(self)@, all.subrange(0, i as int)),
            decreases data.len() - i,
        {
            proof {
                assert(all.subrange(0, i + 1).drop_last() =~= all.subrange(0, i as int));
            }
            self.data.insert(data[i].0.as_str(), data[i].1.clone());
            i += 1;
        }
        proof {
            assert(all.subrange(0, i as int) =~= all);
        }
        self
    }

    /// Ends the collection and hands out the fields.
    pub fn build(self) -> (c: TemplateContext)
        ensures
            c@ == self@,
    {
        self.data
    }
}

/// For each character, whether it is a colon.
pub open spec fn colon_flags(s: Seq<char>) -> Seq<bool> {
    Seq::new(s.len(), |i: int| s[i] == ':')
}

/// The name and the value that a parameter `NAME:VALUE` stands for: what
/// precedes its first colon and what follows it. A text without a colon
/// stands for none.
pub open spec fn parameter_of(s: Seq<char>) -> Option<(Seq<char>, Seq<char>)> {
    if first_true(colon_flags(s), 0) >= s.len() {
        None
    } else {
        Some(
            (
                s.subrange(0, first_true(colon_flags(s), 0)),
                s.subrange(first_true(colon_flags(s), 0) + 1, s.len() as int),
            ),
        )
    }
}

/// A parameter is its name, a colon and its value, and the name holds no
/// colon; a text that stands for no parameter holds no colon at all.
pub proof fn lemma_parameter_of(s: Seq<char>)
    ensures
        match parameter_of(s) {
            Some((name, value)) => s == name + seq![':'] + value && !name.contains(':'),
            None => !s.contains(':'),
        },
{
    let flags = colon_flags(s);
    let at = first_true(flags, 0);
    crate::text::lemma_first_true(flags, 0);
    if at >= s.len() {
        assert forall|i: int| 0 <= i < s.len() implies s[i] != ':' by {
            assert(!flags[i]);
        }
    } else {
        let name = s.subrange(0, at);
        let value = s.subrange(at + 1, s.len() as int);
        assert(flags[at]);
        assert(s =~= name + seq![':'] + value);
        assert forall|i: int| 0 <= i < name.len() implies name[i] != ':' by {
            assert(!flags[i]);
        }
    }
}

/// Reads a parameter `NAME:VALUE`; `None` exactly where the text holds no
/// colon.
pub fn parse_parameter(s: &str) -> (r: Option<(String, String)>)
    ensures
        match parameter_of(s@) {
            Some(p) => r matches Some(kv) && kv.0@ == p.0 && kv.1@ == p.1,
            None => r is None,
        },
{
    let chars = chars_of(s);
    let n = chars.len();
    let ghost flags = colon_flags(s@);
    let mut i: usize = 0;
    while i < n
        invariant
            i <= n,
            n == chars.len(),
            chars@ == s@,
            flags == colon_flags(s@),
            forall|k: int| 0 <= k < i ==> !flags[k],
        decreases n - i,
    {
        if chars[i] == ':' {
            proof {
                lemma_first_true_unique(flags, 0, i as int);
            }
            return Some((string_of(&chars, 0, i), string_of(&chars, i + 1, n)));
        }
        i += 1;
    }
    proof {
        lemma_first_true_unique(flags, 0, n as int);
    }
    None
}

/// The fields that a list of parameters stands for, in order; texts that
/// stand for no parameter are passed over.
pub open spec fn parameters_of(params: Seq<Seq<char>>) -> Seq<(Seq<char>, Seq<char>)>
    decreases params.len(),
{
    if params.len() == 0 {
        Seq::empty()
    } else {
        match parameter_of(params.last()) {
            Some(p) => parameters_of(params.drop_last()).push(p),
            None => parameters_of(params.drop_last()),
        }
    }
}

/// Reads a list of parameters, passing over the texts without a colon.
pub fn parse_parameters(params: &Vec<String>) -> (fields: Vec<(String, String)>)
    ensures
        entries_view(fields@) == parameters_of(params.deep_view()),
{
    let ghost all = params.deep_view();
    let mut fields: Vec<(String, String)> = Vec::new();
    let mut i: usize = 0;
    while i < params.len()
        invariant
            i <= params.len(),
            all == params.deep_view(),
            entries_view(fields@) == parameters_of(all.subrange(0, i as int)),
        decreases params.len() - i,
    {
        proof {
            assert(all.subrange(0, i + 1).drop_last() =~= all.subrange(0, i as int));
            assert(all.subrange(0, i + 1).last() == params[i as int]@);
        }
        let ghost before = entries_view(fields@);
        match parse_parameter(params[i].as_str()) {
            Some(kv) => {
                fields.push(kv);
                proof {
                    assert(entries_view(fields@) =~= before.push((kv.0@, kv.1@)));
                }
            },
            None => {},
        }
        i += 1;
    }
    proof {
        assert(all.subrange(0, i as int) =~= all);
    }
    fields
}

/// The fields of an announcement before any parameter is applied: the
/// prefix, the sender, the recipients, what is known of the release, and
/// the signature where there is one.
pub open spec fn announcement_fields(
    emitter: Seq<char>,
    recipients: Seq<Seq<char>>,
    info: crate::project::ReleaseInfoView,
    signature: Option<Seq<char>>,
) -> Map<Seq<char>, Seq<char>> {
    let fields = Map::<Seq<char>, Seq<char>>::empty().insert("prefix"@, "ANNOUNCE"@).insert(
        "emitter"@,
        emitter,
    ).insert("recipients"@, joined(recipients, ", "@)).insert("project"@, info.project).insert(
        "url"@,
        info.url,
    ).insert("version"@, info.version).insert("text"@, news_text(info.changelog));
    match signature {
        Some(text) => fields.insert("signature"@, text),
        None => fields,
    }
}

/// Collects the fields of an announcement: those of `announcement_fields`,
/// and then the parameters `NAME:VALUE`, each of which replaces what its
/// name held.
pub fn announcement_data(
    emitter: &str,
    recipients: &Vec<String>,
    info: &ReleaseInfo,
    signature: &Option<String>,
    parameters: &Vec<String>,
) -> (c: TemplateContext)
    ensures
        c@ == with_fields(
            announcement_fields(
                emitter@,
                recipients.deep_view(),
                info@,
                match *signature {
                    Some(text) => Some(text@),
                    None => None,
                },
            ),
            parameters_of(parameters.deep_view()),
        ),
{
    let mut builder = MailDataBuilder::new();
    builder.emitter(emitter).recipients(recipients).info(info);
    match signature {
        Some(text) => {
            builder.signature(text.as_str());
        },
        None => {},
    }
    let fields = parse_parameters(parameters);
    builder.extra(&fields);
    builder.build()
}

/// A parameter decides its field: where the text at `i` stands for the
/// parameter `name`, `value` and no later text stands for one of the same
/// name, `name` holds `value` after the parameters were applied, whatever
/// it held before.
pub proof fn lemma_parameter_overrides(
    base: Map<Seq<char>, Seq<char>>,
    params: Seq<Seq<char>>,
    i: int,
    name: Seq<char>,
    value: Seq<char>,
)
    requires
        0 <= i < params.len(),
        parameter_of(params[i]) == Some((name, value)),
        forall|j: int|
            i < j < params.len() ==> (#[trigger] parameter_of(params[j]) matches Some(p) ==> p.0
                != name),
    ensures
        with_fields(base, parameters_of(params)).contains_key(name),
        with_fields(base, parameters_of(params))[name] == value,
    decreases params.len(),
{
    let front = params.drop_last();
    if i < params.len() - 1 {
        assert(front[i] == params[i]);
        assert forall|j: int| i < j < front.len() implies (#[trigger] parameter_of(
            front[j],
        ) matches Some(p) ==> p.0 != name) by {
            assert(front[j] == params[j]);
        }
        lemma_parameter_overrides(base, front, i, name, value);
        let last = parameter_of(params[params.len() - 1]);
        match last {
            Some(p) => {
                assert(parameters_of(params).drop_last() =~= parameters_of(front));
            },
            None => {},
        }
    } else {
        assert(parameters_of(params).drop_last() =~= parameters_of(front));
    }
}

} // verus!
