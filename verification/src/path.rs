//! Actor paths: the stable, bit-stable string address of every actor,
//! whether it lives on the local node or on a remote one.
//!
//! The canonical serialization is `bastion://<node_name>[@<addr>]/<scope>/<id>`,
//! where the `@<addr>` segment appears exactly when the node type is remote.

use vstd::prelude::*;

verus! {

/// The address of a remote node: four address octets and a port,
/// rendered as `a.b.c.d:port`.
#[derive(Clone, Copy, PartialEq, Eq, Structural, Debug)]
pub struct NodeAddress {
    pub a: u8,
    pub b: u8,
    pub c: u8,
    pub d: u8,
    pub port: u16,
}

/// A part of path that defines remote or local machine
/// with running supervisors and actors.
#[derive(Clone, Copy, PartialEq, Eq, Structural, Debug)]
pub enum ActorNodeType {
    /// The message must be delivered in terms of the local node.
    Local,
    /// The message must be delivered to the remote node in the
    /// cluster by the certain host and port.
    Remote(NodeAddress),
}

/// A part of path that defines to what part of the node
/// the message must be delivered.
#[derive(Clone, Copy, PartialEq, Eq, Structural, Debug)]
pub enum ActorScope {
    /// Broadcast the message to user-defined actors, defined
    /// before starting an application.
    User,
    /// Broadcast the message to top-level built-in actors.
    System,
    /// The message wasn't delivered because the node was
    /// stopped or not available.
    DeadLetter,
    /// The message must be delivered to short-living actors or
    /// subtrees of actors spawned in runtime.
    Temporary,
}

/// The mathematical value of an [`ActorPath`]: the four components,
/// with the strings as character sequences.
#[verifier::ext_equal]
pub struct PathModel {
    pub node_name: Seq<char>,
    pub node_type: ActorNodeType,
    pub scope: ActorScope,
    pub id: Seq<char>,
}

/// Special wrapper for handling actor's path and message distribution.
#[derive(Clone, Debug)]
pub struct ActorPath {
    node_name: String,
    node_type: ActorNodeType,
    scope: ActorScope,
    id: String,
}

impl View for ActorPath {
    type V = PathModel;

    closed spec fn view(&self) -> PathModel {
        PathModel {
            node_name: self.node_name@,
            node_type: self.node_type,
            scope: self.scope,
            id: self.id@,
        }
    }
}

/// The lowercase tag of a scope in the canonical path string.
pub open spec fn scope_str(s: ActorScope) -> Seq<char> {
    match s {
        ActorScope::User => "user"@,
        ActorScope::System => "system"@,
        ActorScope::DeadLetter => "dead_letter"@,
        ActorScope::Temporary => "temporary"@,
    }
}

/// The decimal digit characters of a nonnegative integer, most
/// significant first, with no leading zero except for zero itself.
pub open spec fn dec_seq(n: int) -> Seq<char>
    decreases n,
{
    if n < 10 {
        seq![dec_digit(n)]
    } else {
        dec_seq(n / 10) + seq![dec_digit(n % 10)]
    }
}

/// The character of a single decimal digit.
pub open spec fn dec_digit(d: int) -> char {
    if d == 0 { '0' }
    else if d == 1 { '1' }
    else if d == 2 { '2' }
    else if d == 3 { '3' }
    else if d == 4 { '4' }
    else if d == 5 { '5' }
    else if d == 6 { '6' }
    else if d == 7 { '7' }
    else if d == 8 { '8' }
    else { '9' }
}

/// The canonical rendering of a remote address, `a.b.c.d:port`.
pub open spec fn address_str(ad: NodeAddress) -> Seq<char> {
    dec_seq(ad.a as int) + "."@ + dec_seq(ad.b as int) + "."@ + dec_seq(ad.c as int) + "."@
        + dec_seq(ad.d as int) + ":"@ + dec_seq(ad.port as int)
}

/// The segment a node type contributes to the canonical path string:
/// empty for the local node, `@<addr>` for a remote one.
pub open spec fn node_type_str(t: ActorNodeType) -> Seq<char> {
    match t {
        ActorNodeType::Local => Seq::<char>::empty(),
        ActorNodeType::Remote(ad) => "@"@ + address_str(ad),
    }
}

/// The single canonical serialization of a path.
pub open spec fn path_str(p: PathModel) -> Seq<char> {
    "bastion://"@ + p.node_name + node_type_str(p.node_type) + "/"@ + scope_str(p.scope) + "/"@
        + p.id
}

fn digit_str(d: u16) -> (r: &'static str)
    requires
        d < 10,
    ensures
        r@ =~= seq![dec_digit(d as int)],
{
    let r: &'static str = match d {
        0 => "0",
        1 => "1",
        2 => "2",
        3 => "3",
        4 => "4",
        5 => "5",
        6 => "6",
        7 => "7",
        8 => "8",
        _ => "9",
    };
    proof {
        reveal_strlit("0");
        reveal_strlit("1");
        reveal_strlit("2");
        reveal_strlit("3");
        reveal_strlit("4");
        reveal_strlit("5");
        reveal_strlit("6");
        reveal_strlit("7");
        reveal_strlit("8");
        reveal_strlit("9");
    }
    r
}

fn push_dec(s: &mut String, n: u16)
    ensures
        final(s)@ == old(s)@ + dec_seq(n as int),
    decreases n,
{
    if n >= 10 {
        push_dec(s, n / 10);
    }
    let d: u16 = n % 10;
    s.append(digit_str(d));
    proof {
        assert(old(s)@ + dec_seq(n as int) =~= s@);
    }
}

/// Relies on uuid's version-4 generator and its hyphenated rendering:
/// a freshly drawn random identifier, 36 characters long.
#[verifier::external_body]
fn fresh_path_id() -> (r: String)
    ensures
        r@.len() == 36,
{
    uuid::Uuid::new_v4().to_string()
}

impl ActorScope {
    /// The lowercase tag of this scope in the canonical path string.
    pub fn as_str(&self) -> (r: &'static str)
        ensures
            r@ == scope_str(*self),
    {
        match self {
            ActorScope::User => "user",
            ActorScope::System => "system",
            ActorScope::DeadLetter => "dead_letter",
            ActorScope::Temporary => "temporary",
        }
    }
}

impl ActorNodeType {
    /// The segment this node type contributes to a path string:
    /// empty for [`ActorNodeType::Local`], `@<addr>` otherwise.
    pub fn to_string(&self) -> (r: String)
        ensures
            r@ == node_type_str(*self),
    {
        match self {
            ActorNodeType::Local => String::new(),
            ActorNodeType::Remote(address) => {
                let mut s = String::from_str("@");
                push_dec(&mut s, address.a as u16);
                s.append(".");
                push_dec(&mut s, address.b as u16);
                s.append(".");
                push_dec(&mut s, address.c as u16);
                s.append(".");
                push_dec(&mut s, address.d as u16);
                s.append(":");
                push_dec(&mut s, address.port);
                proof {
                    assert(s@ =~= node_type_str(*self));
                }
                s
            },
        }
    }
}

impl ActorPath {
    /// Returns a ActorPath instance, constructed from parts.
    pub fn new(node_name: &str, node_type: ActorNodeType, scope: ActorScope, id: &str) -> (r: Self)
        ensures
            r@.node_name == node_name@,
            r@.node_type == node_type,
            r@.scope == scope,
            r@.id == id@,
    {
        ActorPath {
            node_name: String::from_str(node_name),
            node_type,
            scope,
            id: String::from_str(id),
        }
    }

    /// Replaces the existing node name onto the new one.
    pub fn node_name(self, node_name: &str) -> (r: Self)
        ensures
            r@.node_name == node_name@,
            r@.node_type == self@.node_type,
            r@.scope == self@.scope,
            r@.id == self@.id,
    {
        ActorPath {
            node_name: String::from_str(node_name),
            node_type: self.node_type,
            scope: self.scope,
            id: self.id,
        }
    }

    /// Replaces the existing node type onto the new one.
    pub fn node_type(self, node_type: ActorNodeType) -> (r: Self)
        ensures
            r@.node_name == self@.node_name,
            r@.node_type == node_type,
            r@.scope == self@.scope,
            r@.id == self@.id,
    {
        ActorPath {
            node_name: self.node_name,
            node_type,
            scope: self.scope,
            id: self.id,
        }
    }

    /// Replaces the existing scope onto the new one.
    pub fn scope(self, scope: ActorScope) -> (r: Self)
        ensures
            r@.node_name == self@.node_name,
            r@.node_type == self@.node_type,
            r@.scope == scope,
            r@.id == self@.id,
    {
        ActorPath {
            node_name: self.node_name,
            node_type: self.node_type,
            scope,
            id: self.id,
        }
    }

    /// Replaces the existing actor name onto the new one.
    pub fn name(self, id: &str) -> (r: Self)
        ensures
            r@.node_name == self@.node_name,
            r@.node_type == self@.node_type,
            r@.scope == self@.scope,
            r@.id == id@,
    {
        ActorPath {
            node_name: self.node_name,
            node_type: self.node_type,
            scope: self.scope,
            id: String::from_str(id),
        }
    }

    /// The scope segment of this path.
    pub fn scope_of(&self) -> (r: ActorScope)
        ensures
            r == self@.scope,
    {
        self.scope
    }

    /// The single canonical serialization of this path.
    pub fn to_string(&self) -> (r: String)
        ensures
            r@ == path_str(self@),
    {
        let node_type = self.node_type.to_string();
        let scope = self.scope.as_str();
        let mut s = String::from_str("bastion://");
        s.append(self.node_name.as_str());
        s.append(node_type.as_str());
        s.append("/");
        s.append(scope);
        s.append("/");
        s.append(self.id.as_str());
        proof {
            assert(s@ =~= path_str(self@));
        }
        s
    }
}

impl Default for ActorPath {
    /// A default path: the local node called `node`, the system scope,
    /// and a freshly drawn random identifier.
    fn default() -> (r: Self)
        ensures
            r@.node_name == "node"@,
            r@.node_type == ActorNodeType::Local,
            r@.scope == ActorScope::System,
            r@.id.len() == 36,
    {
        let unique_id = fresh_path_id();
        ActorPath::new("node", ActorNodeType::Local, ActorScope::System, unique_id.as_str())
    }
}

impl PartialEq for ActorPath {
    /// Path equality ignores display form and compares the tuple.
    fn eq(&self, other: &Self) -> (r: bool) {
        let fields_eq = self.node_name == other.node_name && self.node_type == other.node_type
            && self.scope == other.scope && self.id == other.id;
        proof {
            if fields_eq {
                assert(self@ =~= other@);
            }
        }
        fields_eq
    }
}

impl vstd::std_specs::cmp::PartialEqSpecImpl for ActorPath {
    open spec fn obeys_eq_spec() -> bool {
        true
    }

    open spec fn eq_spec(&self, other: &Self) -> bool {
        self@ == other@
    }
}

impl Eq for ActorPath {}

} // verus!
