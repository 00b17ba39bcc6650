//! Names of seedlings and of the containers and networks that belong to them.

use crate::text::{cat2, chars_of, same_text, strip_prefix, stripped};
use vstd::prelude::*;

verus! {

/// What stands before a seedling's name in the name of its container.
pub const CONTAINER_PREFIX: &'static str = "doug.";

/// What stands before a seedling's name in the name of its OpenBao agent's container.
pub const AGENT_CONTAINER_PREFIX: &'static str = "doug-agent.";

/// The seedling that routes traffic.
pub const TRAEFIK: &'static str = "traefik";

/// The seedling that keeps secrets.
pub const OPENBAO: &'static str = "openbao";

/// Whether a character may stand anywhere in a seedling's name.
pub open spec fn is_name_char(c: char) -> bool {
    is_name_start(c) || c == '-'
}

/// Whether a character may begin a seedling's name.
pub open spec fn is_name_start(c: char) -> bool {
    ('a' <= c && c <= 'z') || ('0' <= c && c <= '9')
}

/// Whether a text is the name of a seedling: lower-case letters, digits and hyphens, not
/// beginning with a hyphen.
pub open spec fn valid_name(s: Seq<char>) -> bool {
    &&& s.len() > 0
    &&& is_name_start(s[0])
    &&& forall|i: int| 0 <= i < s.len() ==> is_name_char(#[trigger] s[i])
}

/// Whether a character may stand in a container's or a network's name.
pub open spec fn is_docker_char(c: char) -> bool {
    is_docker_start(c) || c == '_' || c == '.' || c == '-'
}

/// Whether a character may begin a container's or a network's name.
pub open spec fn is_docker_start(c: char) -> bool {
    ('a' <= c && c <= 'z') || ('A' <= c && c <= 'Z') || ('0' <= c && c <= '9')
}

/// Whether a text can name a container or a network.
pub open spec fn valid_docker_name(s: Seq<char>) -> bool {
    &&& s.len() > 1
    &&& is_docker_start(s[0])
    &&& forall|i: int| 0 <= i < s.len() ==> is_docker_char(#[trigger] s[i])
}

/// The name of a seedling.
#[derive(Debug, PartialEq, Eq)]
pub struct Name {
    value: String,
}

impl View for Name {
    type V = Seq<char>;

    closed spec fn view(&self) -> Seq<char> {
        self.value@
    }
}

impl Name {
    #[verifier::type_invariant]
    spec fn well_formed(self) -> bool {
        valid_name(self.value@)
    }

    /// Reads a name; texts that no seedling can have give nothing.
    pub fn parse(s: &str) -> (r: Option<Name>)
        ensures
            r is Some == valid_name(s@),
            r matches Some(name) ==> name@ == s@,
    {
        let chars: Vec<char> = chars_of(s);
        if chars.len() == 0 || !name_start(chars[0]) {
            return None;
        }
        let mut i: usize = 0;
        while i < chars.len()
            invariant
                i <= chars@.len(),
                chars@ == s@,
                forall|j: int| 0 <= j < i ==> is_name_char(#[trigger] s@[j]),
            decreases chars@.len() - i,
        {
            if !(name_start(chars[i]) || chars[i] == '-') {
                assert(!is_name_char(s@[i as int]));
                return None;
            }
            i += 1;
        }
        Some(Name { value: s.to_owned() })
    }

    /// The name as text.
    pub fn as_str(&self) -> (r: &str)
        ensures
            r@ == self@,
            valid_name(self@),
    {
        proof {
            use_type_invariant(self);
        }
        self.value.as_str()
    }

    /// The name as text of its own.
    pub fn to_text(&self) -> (r: String)
        ensures
            r@ == self@,
    {
        self.value.clone()
    }

    /// Whether two names are the same.
    pub fn same(&self, other: &Name) -> (r: bool)
        ensures
            r == (self@ == other@),
    {
        same_text(&self.value, &other.value)
    }
}

impl Clone for Name {
    fn clone(&self) -> (r: Self)
        ensures
            r == *self,
    {
        proof {
            use_type_invariant(self);
        }
        Name { value: self.value.clone() }
    }
}

fn name_start(c: char) -> (r: bool)
    ensures
        r == is_name_start(c),
{
    ('a' <= c && c <= 'z') || ('0' <= c && c <= '9')
}

/// The name of a container or of a network.
#[derive(Debug, PartialEq, Eq)]
pub struct ContainerName {
    value: String,
}

impl View for ContainerName {
    type V = Seq<char>;

    closed spec fn view(&self) -> Seq<char> {
        self.value@
    }
}

impl ContainerName {
    #[verifier::type_invariant]
    spec fn well_formed(self) -> bool {
        valid_docker_name(self.value@)
    }

    /// Reads a container's name; texts that cannot name one give nothing.
    pub fn parse(s: &str) -> (r: Option<ContainerName>)
        ensures
            r is Some == valid_docker_name(s@),
            r matches Some(name) ==> name@ == s@,
    {
        let chars: Vec<char> = chars_of(s);
        if chars.len() < 2 || !docker_start(chars[0]) {
            return None;
        }
        let mut i: usize = 0;
        while i < chars.len()
            invariant
                i <= chars@.len(),
                chars@ == s@,
                forall|j: int| 0 <= j < i ==> is_docker_char(#[trigger] s@[j]),
            decreases chars@.len() - i,
        {
            let c: char = chars[i];
            if !(docker_start(c) || c == '_' || c == '.' || c == '-') {
                assert(!is_docker_char(s@[i as int]));
                return None;
            }
            i += 1;
        }
        Some(ContainerName { value: s.to_owned() })
    }

    /// The name as text.
    pub fn as_str(&self) -> (r: &str)
        ensures
            r@ == self@,
    {
        self.value.as_str()
    }
}

impl Clone for ContainerName {
    fn clone(&self) -> (r: Self)
        ensures
            r == *self,
    {
        proof {
            use_type_invariant(self);
        }
        ContainerName { value: self.value.clone() }
    }
}

fn docker_start(c: char) -> (r: bool)
    ensures
        r == is_docker_start(c),
{
    ('a' <= c && c <= 'z') || ('A' <= c && c <= 'Z') || ('0' <= c && c <= '9')
}

proof fn lemma_prefixed_is_valid(prefix: Seq<char>, name: Seq<char>)
    requires
        valid_docker_name(prefix),
        valid_name(name),
    ensures
        valid_docker_name(prefix + name),
{
    let s = prefix + name;
    assert forall|i: int| 0 <= i < s.len() implies is_docker_char(#[trigger] s[i]) by {
        if i < prefix.len() {
            assert(s[i] == prefix[i]);
        } else {
            assert(s[i] == name[i - prefix.len()]);
        }
    }
}

/// The name of a seedling's container.
pub open spec fn container_name_of(seedling: Seq<char>) -> Seq<char> {
    CONTAINER_PREFIX@ + seedling
}

/// The name of the container of a seedling's OpenBao agent.
pub open spec fn agent_container_name_of(seedling: Seq<char>) -> Seq<char> {
    AGENT_CONTAINER_PREFIX@ + seedling
}

/// The name of a seedling's container.
pub fn container_name(name: &Name) -> (r: ContainerName)
    ensures
        r@ == container_name_of(name@),
{
    proof {
        use_type_invariant(name);
        reveal_strlit("doug.");
        assert(valid_docker_name(CONTAINER_PREFIX@));
        lemma_prefixed_is_valid(CONTAINER_PREFIX@, name@);
    }
    ContainerName { value: cat2(CONTAINER_PREFIX, name.as_str()) }
}

/// The name of the container of a seedling's OpenBao agent.
pub fn agent_container_name(name: &Name) -> (r: ContainerName)
    ensures
        r@ == agent_container_name_of(name@),
{
    proof {
        use_type_invariant(name);
        reveal_strlit("doug-agent.");
        assert(valid_docker_name(AGENT_CONTAINER_PREFIX@));
        lemma_prefixed_is_valid(AGENT_CONTAINER_PREFIX@, name@);
    }
    ContainerName { value: cat2(AGENT_CONTAINER_PREFIX, name.as_str()) }
}

/// The name of the network that a seedling shares with those who talk to it.
pub fn seedling_network_name(seedling_name: &Name) -> (r: ContainerName)
    ensures
        r@ == container_name_of(seedling_name@),
{
    container_name(seedling_name)
}

/// The seedling's name behind a prefix, where there is one.
pub open spec fn name_behind(s: Seq<char>, prefix: Seq<char>) -> Option<Seq<char>> {
    match stripped(s, prefix) {
        Some(rest) => if valid_name(rest) {
            Some(rest)
        } else {
            None
        },
        None => None,
    }
}

/// The seedling's name behind a prefix, where the text starts with the prefix and a valid name
/// follows.
pub fn name_from_prefixed(s: &str, prefix: &str) -> (r: Option<Name>)
    ensures
        r is Some == name_behind(s@, prefix@) is Some,
        r matches Some(name) ==> Some(name@) == name_behind(s@, prefix@),
{
    match strip_prefix(s, prefix) {
        Some(rest) => Name::parse(&rest),
        None => None,
    }
}

/// The seedling whose container has this name, if any.
pub fn seedling_name_from_doug_prefixed(s: &str) -> (r: Option<Name>)
    ensures
        r is Some == name_behind(s@, CONTAINER_PREFIX@) is Some,
        r matches Some(name) ==> Some(name@) == name_behind(s@, CONTAINER_PREFIX@),
{
    name_from_prefixed(s, CONTAINER_PREFIX)
}

/// The seedling whose agent's container has this name, if any.
pub fn seedling_name_from_agent_prefixed(s: &str) -> (r: Option<Name>)
    ensures
        r is Some == name_behind(s@, AGENT_CONTAINER_PREFIX@) is Some,
        r matches Some(name) ==> Some(name@) == name_behind(s@, AGENT_CONTAINER_PREFIX@),
{
    name_from_prefixed(s, AGENT_CONTAINER_PREFIX)
}

proof fn lemma_prefix_strips(prefix: Seq<char>, name: Seq<char>)
    ensures
        stripped(prefix + name, prefix) == Some(name),
{
    assert((prefix + name).subrange(0, prefix.len() as int) =~= prefix);
    assert((prefix + name).skip(prefix.len() as int) =~= name);
}

/// A container's name leads back to its seedling, and so does the name of its agent's container.
pub proof fn law_container_names_lead_back(name: Seq<char>)
    requires
        valid_name(name),
    ensures
        name_behind(container_name_of(name), CONTAINER_PREFIX@) == Some(name),
        name_behind(agent_container_name_of(name), AGENT_CONTAINER_PREFIX@) == Some(name),
{
    lemma_prefix_strips(CONTAINER_PREFIX@, name);
    lemma_prefix_strips(AGENT_CONTAINER_PREFIX@, name);
}

/// A text cannot be read both as a seedling's container and as an agent's container.
pub proof fn law_prefixes_never_collide(s: Seq<char>)
    ensures
        name_behind(s, CONTAINER_PREFIX@) is None || name_behind(s, AGENT_CONTAINER_PREFIX@)
            is None,
{
    reveal_strlit("doug.");
    reveal_strlit("doug-agent.");
    if CONTAINER_PREFIX@.is_prefix_of(s) && AGENT_CONTAINER_PREFIX@.is_prefix_of(s) {
        assert(s.subrange(0, CONTAINER_PREFIX@.len() as int)[4] == s[4]);
        assert(s.subrange(0, AGENT_CONTAINER_PREFIX@.len() as int)[4] == s[4]);
        assert(false);
    }
}

/// Different seedlings have different containers.
pub proof fn law_container_names_are_injective(a: Seq<char>, b: Seq<char>)
    requires
        container_name_of(a) == container_name_of(b) || agent_container_name_of(a)
            == agent_container_name_of(b),
    ensures
        a == b,
{
    lemma_prefix_strips(CONTAINER_PREFIX@, a);
    lemma_prefix_strips(CONTAINER_PREFIX@, b);
    lemma_prefix_strips(AGENT_CONTAINER_PREFIX@, a);
    lemma_prefix_strips(AGENT_CONTAINER_PREFIX@, b);
}

/// Whether a list of names has an entry that reads `wanted`.
pub open spec fn names(list: Seq<Name>, wanted: Seq<char>) -> bool {
    exists|i: int| 0 <= i < list.len() && (#[trigger] list[i])@ == wanted
}

/// Whether a list of names has the given name.
pub fn has_name(list: &Vec<Name>, wanted: &Name) -> (r: bool)
    ensures
        r == names(list@, wanted@),
{
    let mut i: usize = 0;
    while i < list.len()
        invariant
            i <= list@.len(),
            forall|j: int| 0 <= j < i ==> (#[trigger] list@[j])@ != wanted@,
        decreases list@.len() - i,
    {
        if list[i].same(wanted) {
            return true;
        }
        i += 1;
    }
    false
}

/// The name of the traefik seedling.
pub fn traefik() -> (r: Name)
    ensures
        r@ == TRAEFIK@,
{
    proof {
        reveal_strlit("traefik");
        assert(valid_name(TRAEFIK@));
    }
    Name { value: TRAEFIK.to_owned() }
}

/// The name of the OpenBao seedling.
pub fn openbao() -> (r: Name)
    ensures
        r@ == OPENBAO@,
{
    proof {
        reveal_strlit("openbao");
        assert(valid_name(OPENBAO@));
    }
    Name { value: OPENBAO.to_owned() }
}

/// The network that every seedling of douglas itself is in.
pub const SYSTEM_NETWORK_NAME: &'static str = "douglas-system";

/// The network that every seedling of douglas itself is in.
pub fn system_network() -> (r: ContainerName)
    ensures
        r@ == SYSTEM_NETWORK_NAME@,
{
    proof {
        reveal_strlit("douglas-system");
        assert(valid_docker_name(SYSTEM_NETWORK_NAME@));
    }
    ContainerName { value: SYSTEM_NETWORK_NAME.to_owned() }
}

/// A seedling's name stands behind a prefix exactly where the text is the prefix and the name, and
/// the name is one that a seedling can have.
pub proof fn law_names_stand_behind_their_prefix(s: Seq<char>, prefix: Seq<char>, name: Seq<char>)
    ensures
        (name_behind(s, prefix) == Some(name)) == (valid_name(name) && s == prefix + name),
{
    if s == prefix + name {
        assert(s.subrange(0, prefix.len() as int) =~= prefix);
        assert(s.skip(prefix.len() as int) =~= name);
    }
    if name_behind(s, prefix) == Some(name) {
        assert(s =~= prefix + name);
    }
}

/// A text is a seedling's name exactly where it has small letters, digits and hyphens and nothing
/// else, has something, and does not begin with a hyphen.
pub proof fn law_names_are_plain(s: Seq<char>)
    ensures
        valid_name(s) <==> {
            &&& s.len() > 0
            &&& s[0] != '-'
            &&& forall|i: int|
                0 <= i < s.len() ==> (('a' <= #[trigger] s[i] && s[i] <= 'z') || ('0' <= s[i]
                    && s[i] <= '9') || s[i] == '-')
        },
{
    if valid_name(s) {
        assert forall|i: int| 0 <= i < s.len() implies (('a' <= #[trigger] s[i] && s[i] <= 'z') || (
        '0' <= s[i] && s[i] <= '9') || s[i] == '-') by {
            assert(is_name_char(s[i]));
        }
    }
}

/// A text names a container or a network exactly where it has two characters or more, letters,
/// digits, `_`, `.` and `-` and nothing else, and begins with a letter or a digit.
pub proof fn law_container_names_are_plain(s: Seq<char>)
    ensures
        valid_docker_name(s) <==> {
            &&& s.len() >= 2
            &&& s[0] != '_' && s[0] != '.' && s[0] != '-'
            &&& forall|i: int|
                0 <= i < s.len() ==> (('a' <= #[trigger] s[i] && s[i] <= 'z') || ('A' <= s[i]
                    && s[i] <= 'Z') || ('0' <= s[i] && s[i] <= '9') || s[i] == '_' || s[i] == '.'
                    || s[i] == '-')
        },
{
    if valid_docker_name(s) {
        assert forall|i: int| 0 <= i < s.len() implies (('a' <= #[trigger] s[i] && s[i] <= 'z') || (
        'A' <= s[i] && s[i] <= 'Z') || ('0' <= s[i] && s[i] <= '9') || s[i] == '_' || s[i] == '.'
            || s[i] == '-') by {
            assert(is_docker_char(s[i]));
        }
    }
}

/// A list has a name exactly where one of its names reads so.
pub proof fn law_lists_have_their_names(list: Seq<Name>, wanted: Seq<char>)
    ensures
        names(list, wanted) <==> list.map_values(|name: Name| name@).contains(wanted),
{
    let said = list.map_values(|name: Name| name@);
    if names(list, wanted) {
        let i = choose|i: int| 0 <= i < list.len() && (#[trigger] list[i])@ == wanted;
        assert(said[i] == wanted);
    }
    if said.contains(wanted) {
        let i = choose|i: int| 0 <= i < said.len() && said[i] == wanted;
        assert(list[i]@ == wanted);
    }
}

} // verus!
