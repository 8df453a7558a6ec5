//! Capability tokens that a dap declares or is granted, and sets of them.

use vstd::prelude::*;
use crate::text::same_text;

verus! {

/// A capability that a dap can require from the host or be allowed by it.
#[derive(Clone, Copy, Debug, PartialEq, Eq, Structural, Hash)]
pub enum Permission {
    /// Reading files below the dap's own directory.
    FileRead,
    /// Writing files below the dap's own directory.
    FileWrite,
    /// Requests from the dap's pages in the browser to other hosts.
    ClientHttp,
    /// Requests from the dap's module to other hosts.
    Http,
    /// Websocket connections to the dap's module.
    Websocket,
    /// Plain TCP connections from the dap's module.
    Tcp,
}

/// The name under which a permission is written in documents.
pub open spec fn token_of(permission: Permission) -> Seq<char> {
    match permission {
        Permission::FileRead => "file_read"@,
        Permission::FileWrite => "file_write"@,
        Permission::ClientHttp => "client_http"@,
        Permission::Http => "http"@,
        Permission::Websocket => "websocket"@,
        Permission::Tcp => "tcp"@,
    }
}

/// The permission that a name stands for, if it stands for one.
pub open spec fn permission_of(token: Seq<char>) -> Option<Permission> {
    if token == "file_read"@ {
        Some(Permission::FileRead)
    } else if token == "file_write"@ {
        Some(Permission::FileWrite)
    } else if token == "client_http"@ {
        Some(Permission::ClientHttp)
    } else if token == "http"@ {
        Some(Permission::Http)
    } else if token == "websocket"@ {
        Some(Permission::Websocket)
    } else if token == "tcp"@ {
        Some(Permission::Tcp)
    } else {
        None
    }
}

/// Reading back the name of a permission gives that permission, and a name
/// that is read as a permission is the name of that permission.
pub proof fn lemma_token_round_trip(permission: Permission, token: Seq<char>)
    ensures
        permission_of(token_of(permission)) == Some(permission),
        permission_of(token) == Some(permission) ==> token == token_of(permission),
{
    reveal_strlit("file_read");
    reveal_strlit("file_write");
    reveal_strlit("client_http");
    reveal_strlit("http");
    reveal_strlit("websocket");
    reveal_strlit("tcp");
    assert("file_read"@.len() == 9 && "file_read"@[0] == 'f');
    assert("file_write"@.len() == 10);
    assert("client_http"@.len() == 11);
    assert("http"@.len() == 4);
    assert("websocket"@.len() == 9 && "websocket"@[0] == 'w');
    assert("tcp"@.len() == 3);
}

impl Permission {
    /// Every permission, in the order in which sets list their members.
    pub fn all() -> (r: [Permission; 6])
        ensures
            r@ == all_permissions(),
    {
        let r = [
            Permission::FileRead,
            Permission::FileWrite,
            Permission::ClientHttp,
            Permission::Http,
            Permission::Websocket,
            Permission::Tcp,
        ];
        assert(r@ =~= all_permissions());
        r
    }

    /// The name under which this permission is written in documents.
    pub fn as_str(&self) -> (r: &'static str)
        ensures
            r@ == token_of(*self),
    {
        match self {
            Permission::FileRead => "file_read",
            Permission::FileWrite => "file_write",
            Permission::ClientHttp => "client_http",
            Permission::Http => "http",
            Permission::Websocket => "websocket",
            Permission::Tcp => "tcp",
        }
    }

    /// Reads a permission from its name; `None` for any other text.
    pub fn parse(token: &str) -> (r: Option<Permission>)
        ensures
            r == permission_of(token@),
    {
        if same_text(token, "file_read") {
            Some(Permission::FileRead)
        } else if same_text(token, "file_write") {
            Some(Permission::FileWrite)
        } else if same_text(token, "client_http") {
            Some(Permission::ClientHttp)
        } else if same_text(token, "http") {
            Some(Permission::Http)
        } else if same_text(token, "websocket") {
            Some(Permission::Websocket)
        } else if same_text(token, "tcp") {
            Some(Permission::Tcp)
        } else {
            None
        }
    }
}

/// Every permission once, in declaration order.
pub open spec fn all_permissions() -> Seq<Permission> {
    seq![
        Permission::FileRead,
        Permission::FileWrite,
        Permission::ClientHttp,
        Permission::Http,
        Permission::Websocket,
        Permission::Tcp,
    ]
}

/// A set of permissions, one flag for each.
#[derive(Clone, Copy, Debug, PartialEq, Eq, Structural, Hash)]
pub struct PermissionSet {
    pub file_read: bool,
    pub file_write: bool,
    pub client_http: bool,
    pub http: bool,
    pub websocket: bool,
    pub tcp: bool,
}

impl View for PermissionSet {
    type V = Set<Permission>;

    open spec fn view(&self) -> Set<Permission> {
        Set::new(|p: Permission| self.has(p))
    }
}

/// The members of `set` listed in declaration order, each once.
pub open spec fn listing_of(set: PermissionSet) -> Seq<Permission> {
    member_of(set, Permission::FileRead) + member_of(set, Permission::FileWrite) + member_of(
        set,
        Permission::ClientHttp,
    ) + member_of(set, Permission::Http) + member_of(set, Permission::Websocket) + member_of(
        set,
        Permission::Tcp,
    )
}

/// `permission` alone if it is a member of `set`, else nothing.
pub open spec fn member_of(set: PermissionSet, permission: Permission) -> Seq<Permission> {
    if set.has(permission) {
        seq![permission]
    } else {
        Seq::empty()
    }
}

/// The place of a permission in declaration order.
pub open spec fn rank_of(permission: Permission) -> int {
    match permission {
        Permission::FileRead => 0,
        Permission::FileWrite => 1,
        Permission::ClientHttp => 2,
        Permission::Http => 3,
        Permission::Websocket => 4,
        Permission::Tcp => 5,
    }
}

/// The set of the first `n` members of `items`.
pub open spec fn set_of(items: Seq<Permission>, n: int) -> PermissionSet
    decreases n,
{
    if n <= 0 {
        PermissionSet::spec_empty()
    } else {
        set_of(items, n - 1).with(items[n - 1])
    }
}

impl PermissionSet {
    /// Whether `permission` is a member.
    pub open spec fn has(&self, permission: Permission) -> bool {
        match permission {
            Permission::FileRead => self.file_read,
            Permission::FileWrite => self.file_write,
            Permission::ClientHttp => self.client_http,
            Permission::Http => self.http,
            Permission::Websocket => self.websocket,
            Permission::Tcp => self.tcp,
        }
    }

    /// The set without members.
    pub open spec fn spec_empty() -> PermissionSet {
        PermissionSet {
            file_read: false,
            file_write: false,
            client_http: false,
            http: false,
            websocket: false,
            tcp: false,
        }
    }

    /// This set with `permission` added.
    pub open spec fn with(&self, permission: Permission) -> PermissionSet {
        match permission {
            Permission::FileRead => PermissionSet { file_read: true, ..*self },
            Permission::FileWrite => PermissionSet { file_write: true, ..*self },
            Permission::ClientHttp => PermissionSet { client_http: true, ..*self },
            Permission::Http => PermissionSet { http: true, ..*self },
            Permission::Websocket => PermissionSet { websocket: true, ..*self },
            Permission::Tcp => PermissionSet { tcp: true, ..*self },
        }
    }

    /// The set without members.
    pub fn empty() -> (r: PermissionSet)
        ensures
            r == PermissionSet::spec_empty(),
            r@ == Set::<Permission>::empty(),
    {
        let r = PermissionSet {
            file_read: false,
            file_write: false,
            client_http: false,
            http: false,
            websocket: false,
            tcp: false,
        };
        assert(r@ =~= Set::<Permission>::empty());
        r
    }

    /// Whether `permission` is a member.
    pub fn contains(&self, permission: Permission) -> (r: bool)
        ensures
            r == self@.contains(permission),
            r == self.has(permission),
    {
        match permission {
            Permission::FileRead => self.file_read,
            Permission::FileWrite => self.file_write,
            Permission::ClientHttp => self.client_http,
            Permission::Http => self.http,
            Permission::Websocket => self.websocket,
            Permission::Tcp => self.tcp,
        }
    }

    /// Adds `permission`; a member stays one.
    pub fn insert(&mut self, permission: Permission)
        ensures
            *final(self) == old(self).with(permission),
            final(self)@ == old(self)@.insert(permission),
    {
        match permission {
            Permission::FileRead => { self.file_read = true; },
            Permission::FileWrite => { self.file_write = true; },
            Permission::ClientHttp => { self.client_http = true; },
            Permission::Http => { self.http = true; },
            Permission::Websocket => { self.websocket = true; },
            Permission::Tcp => { self.tcp = true; },
        }
        assert(self@ =~= old(self)@.insert(permission));
    }

    /// Whether every member of this set is a member of `other`.
    pub fn is_subset_of(&self, other: &PermissionSet) -> (r: bool)
        ensures
            r == self@.subset_of(other@),
    {
        let r = (!self.file_read || other.file_read) && (!self.file_write || other.file_write) && (
        !self.client_http || other.client_http) && (!self.http || other.http) && (!self.websocket
            || other.websocket) && (!self.tcp || other.tcp);
        proof {
            if r {
                assert forall|p: Permission| self@.contains(p) implies other@.contains(p) by {
                    assert(self.has(p));
                }
            } else {
                let p = if self.file_read && !other.file_read {
                    Permission::FileRead
                } else if self.file_write && !other.file_write {
                    Permission::FileWrite
                } else if self.client_http && !other.client_http {
                    Permission::ClientHttp
                } else if self.http && !other.http {
                    Permission::Http
                } else if self.websocket && !other.websocket {
                    Permission::Websocket
                } else {
                    Permission::Tcp
                };
                assert(self@.contains(p) && !other@.contains(p));
            }
        }
        r
    }

    /// The set of the members of `items`; one that occurs twice counts once.
    pub fn from_slice(items: &[Permission]) -> (r: PermissionSet)
        ensures
            r == set_of(items@, items@.len() as int),
            forall|p: Permission| r@.contains(p) <==> items@.contains(p),
    {
        let mut r = PermissionSet::empty();
        let mut i: usize = 0;
        while i < items.len()
            invariant
                i <= items@.len(),
                r == set_of(items@, i as int),
            decreases items@.len() - i,
        {
            r.insert(items[i]);
            i = i + 1;
        }
        proof {
            lemma_set_of_members(items@, items@.len() as int);
            assert forall|p: Permission| r@.contains(p) <==> items@.contains(p) by {
                if r@.contains(p) {
                    let j = choose|j: int| 0 <= j < items@.len() && items@[j] == p;
                    assert(items@[j] == p);
                }
                if items@.contains(p) {
                    let j = choose|j: int| 0 <= j < items@.len() && items@[j] == p;
                    assert(0 <= j < items@.len() && items@[j] == p);
                }
            }
        }
        r
    }

    /// The members in declaration order, each once.
    pub fn to_vec(&self) -> (r: Vec<Permission>)
        ensures
            r@ == listing_of(*self),
            r@.no_duplicates(),
            forall|p: Permission| r@.contains(p) <==> self@.contains(p),
    {
        let mut r: Vec<Permission> = Vec::new();
        if self.file_read {
            r.push(Permission::FileRead);
        }
        if self.file_write {
            r.push(Permission::FileWrite);
        }
        if self.client_http {
            r.push(Permission::ClientHttp);
        }
        if self.http {
            r.push(Permission::Http);
        }
        if self.websocket {
            r.push(Permission::Websocket);
        }
        if self.tcp {
            r.push(Permission::Tcp);
        }
        proof {
            assert(r@ =~= listing_of(*self));
            lemma_listing(*self);
        }
        r
    }
}

/// Appending the member of the next rank to a listing of the members of
/// smaller rank gives the listing of the members up to that rank.
proof fn lemma_listing_step(prefix: Seq<Permission>, set: PermissionSet, next: Permission)
    requires
        prefix.no_duplicates(),
        forall|q: Permission| prefix.contains(q) <==> set.has(q) && rank_of(q) < rank_of(next),
    ensures
        (prefix + member_of(set, next)).no_duplicates(),
        forall|q: Permission|
            (prefix + member_of(set, next)).contains(q) <==> set.has(q) && rank_of(q) <= rank_of(
                next,
            ),
{
    let s = prefix + member_of(set, next);
    assert forall|q: Permission| s.contains(q) <==> set.has(q) && rank_of(q) <= rank_of(next) by {
        if s.contains(q) {
            let j = choose|j: int| 0 <= j < s.len() && s[j] == q;
            if j < prefix.len() {
                assert(prefix[j] == q);
                assert(prefix.contains(q));
            }
        }
        if set.has(q) && rank_of(q) <= rank_of(next) {
            if rank_of(q) < rank_of(next) {
                assert(prefix.contains(q));
                let j = choose|j: int| 0 <= j < prefix.len() && prefix[j] == q;
                assert(s[j] == q);
            } else {
                assert(q == next);
                assert(s[prefix.len() as int] == q);
            }
        }
    }
    assert forall|i: int, j: int| 0 <= i < s.len() && 0 <= j < s.len() && i != j implies s[i]
        != s[j] by {
        if i < prefix.len() && j >= prefix.len() {
            assert(prefix.contains(prefix[i]));
        }
        if j < prefix.len() && i >= prefix.len() {
            assert(prefix.contains(prefix[j]));
        }
    }
}

/// The listing of a set holds each member once and nothing else, and the set
/// of a listing is the set listed.
pub proof fn lemma_listing(set: PermissionSet)
    ensures
        listing_of(set).no_duplicates(),
        forall|p: Permission| listing_of(set).contains(p) <==> set@.contains(p),
        set_of(listing_of(set), listing_of(set).len() as int) == set,
{
    let s0 = Seq::<Permission>::empty();
    let s1 = s0 + member_of(set, Permission::FileRead);
    let s2 = s1 + member_of(set, Permission::FileWrite);
    let s3 = s2 + member_of(set, Permission::ClientHttp);
    let s4 = s3 + member_of(set, Permission::Http);
    let s5 = s4 + member_of(set, Permission::Websocket);
    let s6 = s5 + member_of(set, Permission::Tcp);
    lemma_listing_step(s0, set, Permission::FileRead);
    lemma_listing_step(s1, set, Permission::FileWrite);
    lemma_listing_step(s2, set, Permission::ClientHttp);
    lemma_listing_step(s3, set, Permission::Http);
    lemma_listing_step(s4, set, Permission::Websocket);
    lemma_listing_step(s5, set, Permission::Tcp);
    assert(s1 =~= member_of(set, Permission::FileRead));
    assert(s6 == listing_of(set));
    assert forall|p: Permission| listing_of(set).contains(p) <==> set@.contains(p) by {
        assert(rank_of(p) <= rank_of(Permission::Tcp));
    }
    lemma_set_of_members(listing_of(set), listing_of(set).len() as int);
    let back = set_of(listing_of(set), listing_of(set).len() as int);
    assert forall|p: Permission| back.has(p) == set.has(p) by {
        if back.has(p) {
            let j = choose|j: int| 0 <= j < listing_of(set).len() && listing_of(set)[j] == p;
            assert(listing_of(set).contains(p));
        }
        if set.has(p) {
            assert(listing_of(set).contains(p));
        }
    }
    assert(back.has(Permission::FileRead) == set.has(Permission::FileRead));
    assert(back.has(Permission::FileWrite) == set.has(Permission::FileWrite));
    assert(back.has(Permission::ClientHttp) == set.has(Permission::ClientHttp));
    assert(back.has(Permission::Http) == set.has(Permission::Http));
    assert(back.has(Permission::Websocket) == set.has(Permission::Websocket));
    assert(back.has(Permission::Tcp) == set.has(Permission::Tcp));
}

/// A permission is in the set of the first `n` items exactly when it is one
/// of them.
pub proof fn lemma_set_of_members(items: Seq<Permission>, n: int)
    requires
        0 <= n <= items.len(),
    ensures
        forall|p: Permission|
            set_of(items, n).has(p) <==> exists|j: int| 0 <= j < n && items[j] == p,
    decreases n,
{
    if n > 0 {
        lemma_set_of_members(items, n - 1);
        assert forall|p: Permission|
            set_of(items, n).has(p) <==> exists|j: int| 0 <= j < n && items[j] == p by {
            if set_of(items, n).has(p) {
                if set_of(items, n - 1).has(p) {
                    let j = choose|j: int| 0 <= j < n - 1 && items[j] == p;
                    assert(0 <= j < n && items[j] == p);
                } else {
                    assert(items[n - 1] == p);
                }
            }
            if exists|j: int| 0 <= j < n && items[j] == p {
                let j = choose|j: int| 0 <= j < n && items[j] == p;
                if j < n - 1 {
                    assert(set_of(items, n - 1).has(p));
                }
            }
        }
    }
}

} // verus!
