//! Building the text of a firewall application profile.
use vstd::prelude::*;

use crate::rootcheck::{escalate_if_needed, escalation_for, Escalation, RunningAs};
use crate::text::{
    is_ascii_digit, is_number, is_number_from, is_white_space, remove_white_space, same_text,
    strip_white_space,
};

verus! {

/// A port token: a bare port number, or a range `<low>:<high>`.
pub open spec fn is_port_token(s: Seq<char>) -> bool {
    is_number(s) || exists|k: int|
        #![trigger s[k]]
        0 <= k < s.len() && s[k] == ':' && is_number(s.take(k)) && is_number(s.skip(k + 1))
}

/// The protocol an entry of a profile is restricted to.
#[derive(Debug, Clone, Copy, PartialEq, Eq, Structural)]
pub enum Protocol {
    Tcp,
    Udp,
    /// No restriction: written as an empty protocol.
    Any,
}

/// The protocol a protocol name stands for, if it is one of `tcp`, `udp` or empty.
pub open spec fn protocol_of(s: Seq<char>) -> Option<Protocol> {
    if s == "tcp"@ {
        Some(Protocol::Tcp)
    } else if s == "udp"@ {
        Some(Protocol::Udp)
    } else if s.len() == 0 {
        Some(Protocol::Any)
    } else {
        None
    }
}

/// What follows the port in an entry's token.
pub open spec fn protocol_suffix(p: Protocol) -> Seq<char> {
    match p {
        Protocol::Tcp => "/tcp"@,
        Protocol::Udp => "/udp"@,
        Protocol::Any => Seq::empty(),
    }
}

/// The token `<port>[/<protocol>]` of one entry.
pub open spec fn token_text(port: Seq<char>, p: Protocol) -> Seq<char> {
    port + protocol_suffix(p)
}

/// Why a port entry was refused.
#[derive(Debug, Clone, PartialEq, Eq)]
pub enum ProfileError {
    /// The protocol is none of `tcp`, `udp` or empty; holds the protocol given.
    BadProtocol(String),
    /// The port is neither a number nor a range of two numbers; holds the port given.
    BadPortToken(String),
}

/// The outcome that validating `(port, protocol)` must have: the protocol is
/// checked first, then the port.
pub open spec fn port_entry_result(port: Seq<char>, protocol: Seq<char>, r: Result<
    Protocol,
    ProfileError,
>) -> bool {
    match protocol_of(protocol) {
        None => r matches Err(ProfileError::BadProtocol(p)) && p@ == protocol,
        Some(proto) => if is_port_token(port) {
            r == Ok::<Protocol, ProfileError>(proto)
        } else {
            r matches Err(ProfileError::BadPortToken(t)) && t@ == port
        },
    }
}

/// Whether `port` is a port number or a range of two.
pub fn check_port_token(port: &str) -> (r: bool)
    ensures
        r == is_port_token(port@),
{
    let ghost s = port@;
    let n = port.unicode_len();
    let mut i: usize = 0;
    while i < n
        invariant_except_break
            s == port@,
            n == s.len(),
            i <= n,
            forall|j: int| 0 <= j < i ==> is_ascii_digit(#[trigger] s[j]),
        ensures
            s == port@,
            n == s.len(),
            i <= n,
            forall|j: int| 0 <= j < i ==> is_ascii_digit(#[trigger] s[j]),
            i < n ==> !is_ascii_digit(s[i as int]),
        decreases n - i,
    {
        let c = port.get_char(i);
        if !('0' <= c && c <= '9') {
            break;
        }
        i = i + 1;
    }
    if i == n {
        assert(s.take(n as int) =~= s);
        if n == 0 {
            assert forall|k: int| 0 <= k < s.len() implies !(#[trigger] s[k] == ':') by {}
        } else {
            assert(is_number(s));
        }
        return n > 0;
    }
    // `i` is the first character that is not a digit: a range must have its
    // colon there, since no colon is a digit.
    assert(!is_number(s));
    assert forall|k: int| 0 <= k < s.len() && #[trigger] s[k] == ':' && is_number(s.take(k))
        implies k == i by {
        if k < i {
            assert(is_ascii_digit(s[k]));
        }
        if k > i {
            assert(s.take(k)[i as int] == s[i as int]);
        }
    }
    let c = port.get_char(i);
    if c != ':' || i == 0 {
        if i == 0 && c == ':' {
            assert(s.take(0).len() == 0);
        }
        return false;
    }
    assert forall|j: int| 0 <= j < i implies is_ascii_digit(#[trigger] s.take(i as int)[j]) by {
        assert(s.take(i as int)[j] == s[j]);
    }
    assert(is_number(s.take(i as int)));
    let rest = is_number_from(port, i + 1);
    if rest {
        assert(s[i as int] == ':');
    }
    rest
}

/// Validates a `(port, protocol)` pair: the protocol is checked first, then the port.
pub fn check_ports(port: &str, protocol: &str) -> (r: Result<Protocol, ProfileError>)
    ensures
        port_entry_result(port@, protocol@, r),
{
    proof {
        reveal_strlit("tcp");
        reveal_strlit("udp");
    }
    let proto = if same_text(protocol, "tcp") {
        Protocol::Tcp
    } else if same_text(protocol, "udp") {
        Protocol::Udp
    } else if protocol.unicode_len() == 0 {
        Protocol::Any
    } else {
        return Err(ProfileError::BadProtocol(String::from_str(protocol)));
    };
    if !check_port_token(port) {
        return Err(ProfileError::BadPortToken(String::from_str(port)));
    }
    Ok(proto)
}

/// The `ports=` value: the tokens joined by `|`, with no separator at either end.
pub open spec fn join_tokens(t: Seq<Seq<char>>) -> Seq<char>
    decreases t.len(),
{
    if t.len() == 0 {
        Seq::empty()
    } else if t.len() == 1 {
        t[0]
    } else {
        join_tokens(t.drop_last()) + "|"@ + t.last()
    }
}

/// The text of a profile.
pub open spec fn config_text(
    name: Seq<char>,
    title: Seq<char>,
    description: Seq<char>,
    tokens: Seq<Seq<char>>,
) -> Seq<char> {
    "["@ + name + "]\ntitle="@ + title + "\ndescription="@ + description + "\nports="@
        + join_tokens(tokens) + "\n"@
}

/// Where the profile of an application of this name is written.
pub open spec fn profile_path_of(name: Seq<char>) -> Seq<char> {
    "/etc/ufw/applications.d/ufw-"@ + name
}

/// What a profile holds, as plain sequences.
pub struct ProfileView {
    pub name: Seq<char>,
    pub title: Seq<char>,
    pub description: Seq<char>,
    /// The accepted `(port, protocol)` entries, in the order they were added.
    pub entries: Seq<(Seq<char>, Protocol)>,
}

impl ProfileView {
    /// Every entry's port is a port token.
    pub open spec fn wf(self) -> bool {
        forall|i: int| 0 <= i < self.entries.len() ==> is_port_token(#[trigger] self.entries[i].0)
    }

    pub open spec fn tokens(self) -> Seq<Seq<char>> {
        self.entries.map_values(|e: (Seq<char>, Protocol)| token_text(e.0, e.1))
    }

    pub open spec fn text(self) -> Seq<char> {
        config_text(self.name, self.title, self.description, self.tokens())
    }

    /// `self` with one more entry at the end.
    pub open spec fn with_entry(self, port: Seq<char>, p: Protocol) -> ProfileView {
        ProfileView { entries: self.entries.push((port, p)), ..self }
    }
}

#[derive(Clone)]
struct PortEntry {
    port: String,
    protocol: Protocol,
}

/// One firewall application profile: a name, a title, a description and the
/// ports it opens.
#[derive(Clone)]
pub struct UFWConf {
    app_name: String,
    title: String,
    description: String,
    entries: Vec<PortEntry>,
}

impl View for UFWConf {
    type V = ProfileView;

    closed spec fn view(&self) -> ProfileView {
        ProfileView {
            name: self.app_name@,
            title: self.title@,
            description: self.description@,
            entries: self.entries@.map_values(|e: PortEntry| (e.port@, e.protocol)),
        }
    }
}

impl Default for UFWConf {
    /// A profile with an empty name, title and description, and no ports.
    fn default() -> (r: UFWConf)
        ensures
            r@ == (ProfileView {
                name: Seq::empty(),
                title: Seq::empty(),
                description: Seq::empty(),
                entries: Seq::empty(),
            }),
    {
        let r = UFWConf {
            app_name: String::new(),
            title: String::new(),
            description: String::new(),
            entries: Vec::new(),
        };
        assert(r@.entries =~= Seq::empty());
        r
    }
}

fn suffix_str(p: Protocol) -> (r: &'static str)
    ensures
        r@ == protocol_suffix(p),
{
    proof {
        reveal_strlit("/tcp");
        reveal_strlit("/udp");
        reveal_strlit("");
    }
    match p {
        Protocol::Tcp => "/tcp",
        Protocol::Udp => "/udp",
        Protocol::Any => "",
    }
}

impl UFWConf {
    /// A profile with no ports yet; every white-space character is taken out of the name.
    pub fn init(app_name: &str, title: &str, description: &str) -> (r: Result<
        UFWConf,
        ProfileError,
    >)
        ensures
            r matches Ok(c) && c@ == (ProfileView {
                name: strip_white_space(app_name@),
                title: title@,
                description: description@,
                entries: Seq::empty(),
            }),
    {
        let c = UFWConf {
            app_name: remove_white_space(app_name),
            title: String::from_str(title),
            description: String::from_str(description),
            entries: Vec::new(),
        };
        assert(c@.entries =~= Seq::empty());
        Ok(c)
    }

    /// A copy of the profile.
    fn duplicate(&self) -> (r: UFWConf)
        ensures
            r@ == self@,
    {
        let mut entries: Vec<PortEntry> = Vec::new();
        let mut i: usize = 0;
        while i < self.entries.len()
            invariant
                i <= self.entries@.len(),
                entries@.len() == i,
                forall|j: int|
                    0 <= j < i ==> (#[trigger] entries@[j]).port@ == self.entries@[j].port@
                        && entries@[j].protocol == self.entries@[j].protocol,
            decreases self.entries@.len() - i,
        {
            let e = &self.entries[i];
            entries.push(PortEntry { port: e.port.clone(), protocol: e.protocol });
            i = i + 1;
        }
        let r = UFWConf {
            app_name: self.app_name.clone(),
            title: self.title.clone(),
            description: self.description.clone(),
            entries,
        };
        assert(r@.entries =~= self@.entries);
        r
    }

    /// Adds the entry `(port, protocol)` after the others, and returns a copy
    /// of the profile; a refused entry leaves the profile as it was.
    pub fn append_ports(&mut self, port: &str, protocol: &str) -> (r: Result<
        UFWConf,
        ProfileError,
    >)
        ensures
            match r {
                Ok(c) => {
                    &&& port_entry_result(port@, protocol@, Ok(protocol_of(protocol@)->0))
                    &&& final(self)@ == old(self)@.with_entry(port@, protocol_of(protocol@)->0)
                    &&& c@ == final(self)@
                },
                Err(e) => {
                    &&& port_entry_result(port@, protocol@, Err(e))
                    &&& final(self)@ == old(self)@
                },
            },
            final(self)@.wf() == old(self)@.wf(),
    {
        match check_ports(port, protocol) {
            Ok(proto) => {
                self.entries.push(PortEntry { port: String::from_str(port), protocol: proto });
                assert(self@.entries =~= old(self)@.entries.push((port@, proto)));
                assert(self@.wf() == old(self)@.wf()) by {
                    if old(self)@.wf() {
                        assert forall|i: int| 0 <= i < self@.entries.len() implies is_port_token(
                            #[trigger] self@.entries[i].0,
                        ) by {
                            if i < old(self)@.entries.len() {
                                assert(self@.entries[i] == old(self)@.entries[i]);
                            }
                        }
                    }
                    if self@.wf() {
                        assert forall|i: int|
                            0 <= i < old(self)@.entries.len() implies is_port_token(
                            #[trigger] old(self)@.entries[i].0,
                        ) by {
                            assert(self@.entries[i] == old(self)@.entries[i]);
                        }
                    }
                }
                Ok(self.duplicate())
            },
            Err(e) => Err(e),
        }
    }

    /// Where this profile is written.
    pub fn profile_path(&self) -> (r: String)
        ensures
            r@ == profile_path_of(self@.name),
    {
        let mut s = String::from_str("/etc/ufw/applications.d/ufw-");
        s.append(self.app_name.as_str());
        s
    }

    /// The text of the profile.
    pub fn get_config_string(&self) -> (r: String)
        ensures
            r@ == self@.text(),
    {
        let ghost toks = self@.tokens();
        let mut ports = String::new();
        let mut i: usize = 0;
        while i < self.entries.len()
            invariant
                i <= self.entries@.len(),
                toks == self@.tokens(),
                toks.len() == self.entries@.len(),
                ports@ == join_tokens(toks.take(i as int)),
            decreases self.entries@.len() - i,
        {
            let e = &self.entries[i];
            assert(toks[i as int] == token_text(e.port@, e.protocol));
            assert(toks.take(i as int + 1).drop_last() =~= toks.take(i as int));
            if i > 0 {
                ports.append("|");
            } else {
                assert(ports@ =~= Seq::<char>::empty());
            }
            ports.append(e.port.as_str());
            ports.append(suffix_str(e.protocol));
            assert(ports@ =~= join_tokens(toks.take(i as int + 1)));
            i = i + 1;
        }
        assert(toks.take(toks.len() as int) =~= toks);
        let mut s = String::from_str("[");
        s.append(self.app_name.as_str());
        s.append("]\ntitle=");
        s.append(self.title.as_str());
        s.append("\ndescription=");
        s.append(self.description.as_str());
        s.append("\nports=");
        s.append(ports.as_str());
        s.append("\n");
        assert(s@ =~= self@.text());
        s
    }
}

/// How the firewall tool is run.
#[derive(Debug, Clone, Copy, PartialEq, Eq, Structural)]
pub enum Invocation {
    /// `ufw` itself.
    Direct,
    /// `ufw` through `sudo`.
    Elevated,
}

/// The invocation to try after `tried`: the tool is run again through `sudo`
/// only when it could not be started directly.
pub fn next_invocation(tried: Invocation, spawn_failed: bool) -> (r: Option<Invocation>)
    ensures
        r == (if tried == Invocation::Direct && spawn_failed {
            Some(Invocation::Elevated)
        } else {
            None
        }),
{
    match tried {
        Invocation::Direct => if spawn_failed {
            Some(Invocation::Elevated)
        } else {
            None
        },
        Invocation::Elevated => None,
    }
}

pub open spec fn rule_verb(allow: bool) -> Seq<char> {
    if allow {
        "allow"@
    } else {
        "deny"@
    }
}

/// The command line that allows or denies the profile `name`.
pub open spec fn rule_command(name: Seq<char>, allow: bool, via: Invocation) -> Seq<Seq<char>> {
    let direct = seq!["ufw"@, rule_verb(allow), name];
    match via {
        Invocation::Direct => direct,
        Invocation::Elevated => seq!["sudo"@] + direct,
    }
}

impl UFWConf {
    /// Whether the process holds root privileges, as the step that gets it there.
    pub fn is_root(current: RunningAs) -> (r: Escalation)
        ensures
            r == escalation_for(current),
    {
        escalate_if_needed(current)
    }

    /// The command line, program first, that allows (`allow`) or denies the
    /// ports of this profile.
    pub fn rule_command_line(&self, allow: bool, via: Invocation) -> (r: Vec<String>)
        ensures
            r@.map_values(|s: String| s@) == rule_command(self@.name, allow, via),
    {
        proof {
            reveal_strlit("ufw");
            reveal_strlit("sudo");
            reveal_strlit("allow");
            reveal_strlit("deny");
        }
        let mut r: Vec<String> = Vec::new();
        if via == Invocation::Elevated {
            r.push(String::from_str("sudo"));
        }
        r.push(String::from_str("ufw"));
        r.push(String::from_str(if allow { "allow" } else { "deny" }));
        r.push(self.app_name.clone());
        assert(r@.map_values(|s: String| s@) =~= rule_command(self@.name, allow, via));
        r
    }
}

/// Adding an entry to a profile adds exactly its token to the `ports=` value,
/// after all earlier ones and separated from them by one `|`.
pub proof fn lemma_append_adds_one_token(v: ProfileView, port: Seq<char>, p: Protocol)
    ensures
        v.with_entry(port, p).tokens() == v.tokens().push(token_text(port, p)),
        join_tokens(v.with_entry(port, p).tokens()) == if v.entries.len() == 0 {
            token_text(port, p)
        } else {
            join_tokens(v.tokens()) + "|"@ + token_text(port, p)
        },
{
    let t = v.with_entry(port, p).tokens();
    assert(t =~= v.tokens().push(token_text(port, p)));
    assert(t.drop_last() =~= v.tokens());
}

/// Taking out white space leaves none, and leaves a string without any unchanged.
pub proof fn lemma_strip_white_space(s: Seq<char>)
    ensures
        forall|i: int|
            0 <= i < strip_white_space(s).len() ==> !is_white_space(
                #[trigger] strip_white_space(s)[i],
            ),
        (forall|i: int| 0 <= i < s.len() ==> !is_white_space(#[trigger] s[i]))
            ==> strip_white_space(s) == s,
    decreases s.len(),
{
    if s.len() > 0 {
        lemma_strip_white_space(s.drop_last());
        let rest = strip_white_space(s.drop_last());
        if !is_white_space(s.last()) {
            assert forall|i: int|
                0 <= i < strip_white_space(s).len() implies !is_white_space(
                #[trigger] strip_white_space(s)[i],
            ) by {
                if i < rest.len() {
                    assert(strip_white_space(s)[i] == rest[i]);
                }
            }
        }
        if forall|i: int| 0 <= i < s.len() ==> !is_white_space(#[trigger] s[i]) {
            assert forall|i: int| 0 <= i < s.drop_last().len() implies !is_white_space(
                #[trigger] s.drop_last()[i],
            ) by {
                assert(s.drop_last()[i] == s[i]);
            }
            assert(s.drop_last().push(s.last()) =~= s);
        }
    }
}

/// The name a profile is created with, stripped of white space, is the one in
/// the profile's `[section]` header and at the end of the path it is written to.
pub proof fn lemma_name_in_header_and_path(
    app_name: Seq<char>,
    title: Seq<char>,
    description: Seq<char>,
)
    ensures
        ({
            let name = strip_white_space(app_name);
            let v = ProfileView { name, title, description, entries: Seq::empty() };
            &&& forall|i: int| 0 <= i < name.len() ==> !is_white_space(#[trigger] name[i])
            &&& v.text().take(name.len() as int + 2) == "["@ + name + "]"@
            &&& profile_path_of(name).skip("/etc/ufw/applications.d/ufw-"@.len() as int)
                == name
        }),
{
    lemma_strip_white_space(app_name);
    let name = strip_white_space(app_name);
    let v = ProfileView { name, title, description, entries: Seq::empty() };
    reveal_strlit("[");
    reveal_strlit("]");
    reveal_strlit("]\ntitle=");
    assert(v.text().take(name.len() as int + 2) =~= "["@ + name + "]"@);
    assert(profile_path_of(name).skip("/etc/ufw/applications.d/ufw-"@.len() as int) =~= name);
}

} // verus!
