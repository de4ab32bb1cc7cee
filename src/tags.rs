//! Permission and classification tags of an account.

use vstd::prelude::*;
use vstd::slice::slice_to_vec;

use crate::Error;

verus! {

/// A permission, granting a specific action.
#[derive(Clone, Copy, PartialEq, Eq, Structural, Hash, Debug)]
pub enum Permission {
    Post,
    ReviewPost,
    GetPubPost,
    RemovePost,
    Maintain,
    SetPermissions,
    ViewSimpleAccount,
    ViewFullAccount,
    UploadResource,
    ManageNotifications,
    GetPubNotifications,
}

/// The category of a tag.
#[derive(Clone, Copy, PartialEq, Eq, Structural, Hash, Debug)]
pub enum TagEntry {
    Permission,
    Department,
    House,
}

/// A tag value, belonging to the entry of its variant.
#[derive(Clone, Debug)]
pub enum Tag {
    Permission(Permission),
    Department(String),
    House(String),
}

impl Tag {
    /// The entry this tag belongs to.
    pub open spec fn entry_of(self) -> TagEntry {
        match self {
            Tag::Permission(_) => TagEntry::Permission,
            Tag::Department(_) => TagEntry::Department,
            Tag::House(_) => TagEntry::House,
        }
    }

    /// The entry this tag belongs to.
    pub fn entry(&self) -> (r: TagEntry)
        ensures
            r == self.entry_of(),
    {
        match self {
            Tag::Permission(_) => TagEntry::Permission,
            Tag::Department(_) => TagEntry::Department,
            Tag::House(_) => TagEntry::House,
        }
    }
}

/// The sets of names held by a string-valued entry.
pub open spec fn names_of(v: Seq<String>) -> Set<Seq<char>> {
    v.map_values(|s: String| s@).to_set()
}

/// What a [`Tags`] collection holds: for each entry, absent or a set.
pub struct TagsView {
    pub permissions: Option<Set<Permission>>,
    pub departments: Option<Set<Seq<char>>>,
    pub houses: Option<Set<Seq<char>>>,
}

/// Tags of an account: for each entry, absent or a set of values.
#[derive(Clone, Debug)]
pub struct Tags {
    permissions: Option<Vec<Permission>>,
    departments: Option<Vec<String>>,
    houses: Option<Vec<String>>,
}

impl View for Tags {
    type V = TagsView;

    closed spec fn view(&self) -> TagsView {
        TagsView {
            permissions: match self.permissions {
                Some(v) => Some(v@.to_set()),
                None => None,
            },
            departments: match self.departments {
                Some(v) => Some(names_of(v@)),
                None => None,
            },
            houses: match self.houses {
                Some(v) => Some(names_of(v@)),
                None => None,
            },
        }
    }
}

/// Whether a permission is in the Permission entry.
pub open spec fn has_permission(t: TagsView, p: Permission) -> bool {
    t.permissions matches Some(s) && s.contains(p)
}

/// `t` with one more tag in its entry, the entry created where absent.
pub open spec fn with_tag(t: TagsView, tag: Tag) -> TagsView {
    match tag {
        Tag::Permission(p) => TagsView {
            permissions: Some(
                match t.permissions {
                    Some(s) => s,
                    None => Set::empty(),
                }.insert(p),
            ),
            ..t
        },
        Tag::Department(d) => TagsView {
            departments: Some(
                match t.departments {
                    Some(s) => s,
                    None => Set::empty(),
                }.insert(d@),
            ),
            ..t
        },
        Tag::House(h) => TagsView {
            houses: Some(
                match t.houses {
                    Some(s) => s,
                    None => Set::empty(),
                }.insert(h@),
            ),
            ..t
        },
    }
}

/// Whether a delegation of `requested` by an account with tags
/// `delegator` may go ahead: the delegator holds the set-permissions
/// permission and every requested permission itself.
pub open spec fn delegation_allowed(delegator: TagsView, requested: Set<Permission>) -> bool {
    &&& has_permission(delegator, Permission::SetPermissions)
    &&& requested.subset_of(delegator.permissions->0)
}

/// The Permission entry that an allowed delegation leaves on the target:
/// the requested permissions, unless the target already holds one that
/// the delegator lacks, in which case the target's entry stays as it was.
pub open spec fn delegated(
    delegator: Set<Permission>,
    target: Option<Set<Permission>>,
    requested: Set<Permission>,
) -> Option<Set<Permission>> {
    if target matches Some(t) && !t.subset_of(delegator) {
        target
    } else {
        Some(requested)
    }
}

/// The permissions among some tags.
pub open spec fn perms_in(v: Seq<Tag>) -> Set<Permission> {
    Set::new(|p: Permission| exists|i: int| 0 <= i < v.len() && v[i] == Tag::Permission(p))
}

/// The name a department or house tag carries.
pub open spec fn tag_name(t: Tag) -> Option<Seq<char>> {
    match t {
        Tag::Department(d) => Some(d@),
        Tag::House(d) => Some(d@),
        Tag::Permission(_) => None,
    }
}

/// The names of the department and house tags among some tags.
pub open spec fn names_in(v: Seq<Tag>) -> Set<Seq<char>> {
    Set::new(
        |s: Seq<char>| exists|i: int| 0 <= i < v.len() && #[trigger] tag_name(v[i]) == Some(s),
    )
}

fn names_to_tags(v: &Vec<String>, department: bool) -> (out: Vec<Tag>)
    ensures
        names_in(out@) == names_of(v@),
        forall|i: int| 0 <= i < out@.len() ==> (#[trigger] out@[i]).entry_of() == if department {
            TagEntry::Department
        } else {
            TagEntry::House
        },
{
    let mut out: Vec<Tag> = Vec::new();
    let mut i: usize = 0;
    while i < v.len()
        invariant
            i <= v@.len(),
            out@.len() == i,
            forall|k: int| 0 <= k < i ==> #[trigger] out@[k] == if department {
                Tag::Department(v@[k])
            } else {
                Tag::House(v@[k])
            },
        decreases v@.len() - i,
    {
        if department {
            out.push(Tag::Department(v[i].clone()));
        } else {
            out.push(Tag::House(v[i].clone()));
        }
        i = i + 1;
    }
    proof {
        assert forall|s: Seq<char>| names_in(out@).contains(s) <==> names_of(v@).contains(s) by {
            if names_of(v@).contains(s) {
                let k = v@.map_values(|x: String| x@).index_of(s);
                assert(v@.map_values(|x: String| x@)[k] == v@[k]@);
                assert(out@[k] == if department { Tag::Department(v@[k]) } else { Tag::House(v@[k]) });
                assert(tag_name(out@[k]) == Some(s));
            }
            if names_in(out@).contains(s) {
                let k = choose|k: int| 0 <= k < out@.len() && #[trigger] tag_name(out@[k]) == Some(s);
                assert(v@.map_values(|x: String| x@)[k] == v@[k]@);
            }
        }
        assert(names_in(out@) == names_of(v@));
    }
    out
}

fn contains_perm(v: &Vec<Permission>, p: Permission) -> (r: bool)
    ensures
        r == v@.contains(p),
{
    let mut i: usize = 0;
    while i < v.len()
        invariant
            i <= v@.len(),
            forall|k: int| 0 <= k < i ==> v@[k] != p,
        decreases v@.len() - i,
    {
        if v[i] == p {
            return true;
        }
        i = i + 1;
    }
    false
}

fn contains_name(v: &Vec<String>, s: &String) -> (r: bool)
    ensures
        r == names_of(v@).contains(s@),
{
    let mut i: usize = 0;
    while i < v.len()
        invariant
            i <= v@.len(),
            forall|k: int| 0 <= k < i ==> v@[k]@ != s@,
        decreases v@.len() - i,
    {
        if v[i] == *s {
            assert(v@.map_values(|s: String| s@)[i as int] == s@);
            return true;
        }
        i = i + 1;
    }
    proof {
        if names_of(v@).contains(s@) {
            let k = v@.map_values(|s: String| s@).index_of(s@);
            assert(v@.map_values(|s: String| s@)[k] == v@[k]@);
        }
    }
    false
}

proof fn lemma_names_push(v: Seq<String>, s: String)
    ensures
        names_of(v.push(s)) == names_of(v).insert(s@),
{
    assert(v.push(s).map_values(|x: String| x@) == v.map_values(|x: String| x@).push(s@));
    v.map_values(|x: String| x@).lemma_push_to_set_commute(s@);
}

fn insert_name(v: &mut Vec<String>, s: String)
    ensures
        names_of(final(v)@) == names_of(old(v)@).insert(s@),
{
    if !contains_name(v, &s) {
        proof {
            lemma_names_push(v@, s);
        }
        v.push(s);
    } else {
        assert(names_of(old(v)@).insert(s@) == names_of(old(v)@));
    }
}

impl Tags {
    /// An empty collection: no entry at all.
    pub fn new() -> (r: Tags)
        ensures
            r@ == (TagsView { permissions: None, departments: None, houses: None }),
    {
        Tags { permissions: None, departments: None, houses: None }
    }

    /// Adds a tag to its entry, creating the entry where absent.
    pub fn insert(&mut self, tag: Tag)
        ensures
            final(self)@ == with_tag(old(self)@, tag),
    {
        match tag {
            Tag::Permission(p) => {
                let mut v = match self.permissions.take() {
                    Some(v) => v,
                    None => Vec::new(),
                };
                proof {
                    let s = match old(self)@.permissions {
                        Some(s) => s,
                        None => Set::empty(),
                    };
                    assert(v@.to_set() == s);
                }
                if !contains_perm(&v, p) {
                    proof {
                        v@.lemma_push_to_set_commute(p);
                    }
                    v.push(p);
                } else {
                    assert(v@.to_set().insert(p) == v@.to_set());
                }
                self.permissions = Some(v);
            },
            Tag::Department(d) => {
                let mut v = match self.departments.take() {
                    Some(v) => v,
                    None => Vec::new(),
                };
                proof {
                    assert(names_of(Seq::<String>::empty()) == Set::<Seq<char>>::empty());
                }
                insert_name(&mut v, d);
                self.departments = Some(v);
            },
            Tag::House(h) => {
                let mut v = match self.houses.take() {
                    Some(v) => v,
                    None => Vec::new(),
                };
                proof {
                    assert(names_of(Seq::<String>::empty()) == Set::<Seq<char>>::empty());
                }
                insert_name(&mut v, h);
                self.houses = Some(v);
            },
        }
    }

    /// Whether the Permission entry holds `p`.
    pub fn contains_permission(&self, p: Permission) -> (r: bool)
        ensures
            r == has_permission(self@, p),
    {
        match &self.permissions {
            Some(v) => contains_perm(v, p),
            None => false,
        }
    }

    /// The permissions of the Permission entry, if it exists.
    pub fn permissions(&self) -> (r: Option<Vec<Permission>>)
        ensures
            r matches Some(v) ==> self@.permissions == Some(v@.to_set()),
            r is None <==> self@.permissions is None,
    {
        self.permissions.clone()
    }

    /// A collection with the given entries.
    pub fn from_parts(
        permissions: Option<Vec<Permission>>,
        departments: Option<Vec<String>>,
        houses: Option<Vec<String>>,
    ) -> (r: Tags)
        ensures
            r@.permissions == (match permissions {
                Some(v) => Some(v@.to_set()),
                None => None,
            }),
            r@.departments == (match departments {
                Some(v) => Some(names_of(v@)),
                None => None,
            }),
            r@.houses == (match houses {
                Some(v) => Some(names_of(v@)),
                None => None,
            }),
    {
        Tags { permissions, departments, houses }
    }

    /// The names of the House entry, if it exists.
    pub fn houses(&self) -> (r: Option<Vec<String>>)
        ensures
            r matches Some(v) ==> self@.houses == Some(names_of(v@)),
            r is None <==> self@.houses is None,
    {
        match &self.houses {
            Some(v) => {
                let c = v.clone();
                proof {
                    assert(c@.map_values(|s: String| s@) == v@.map_values(|s: String| s@));
                }
                Some(c)
            },
            None => None,
        }
    }

    /// The names of the Department entry, if it exists.
    pub fn departments(&self) -> (r: Option<Vec<String>>)
        ensures
            r matches Some(v) ==> self@.departments == Some(names_of(v@)),
            r is None <==> self@.departments is None,
    {
        match &self.departments {
            Some(v) => {
                let c = v.clone();
                proof {
                    assert(c@.map_values(|s: String| s@) == v@.map_values(|s: String| s@));
                }
                Some(c)
            },
            None => None,
        }
    }

    /// The tags of one entry, if the entry exists.
    pub fn from_entry(&self, entry: TagEntry) -> (r: Option<Vec<Tag>>)
        ensures
            r is None <==> match entry {
                TagEntry::Permission => self@.permissions is None,
                TagEntry::Department => self@.departments is None,
                TagEntry::House => self@.houses is None,
            },
            r matches Some(v) ==> forall|i: int|
                0 <= i < v@.len() ==> (#[trigger] v@[i]).entry_of() == entry,
            r matches Some(v) ==> match entry {
                TagEntry::Permission => self@.permissions == Some(perms_in(v@)),
                TagEntry::Department => self@.departments == Some(names_in(v@)),
                TagEntry::House => self@.houses == Some(names_in(v@)),
            },
    {
        match entry {
            TagEntry::Permission => match &self.permissions {
                Some(v) => {
                    let mut out: Vec<Tag> = Vec::new();
                    let mut i: usize = 0;
                    while i < v.len()
                        invariant
                            i <= v@.len(),
                            out@.len() == i,
                            forall|k: int| 0 <= k < i ==> #[trigger] out@[k] == Tag::Permission(v@[k]),
                        decreases v@.len() - i,
                    {
                        out.push(Tag::Permission(v[i]));
                        i = i + 1;
                    }
                    proof {
                        assert forall|p: Permission| perms_in(out@).contains(p) <==> v@.to_set().contains(p) by {
                            if v@.contains(p) {
                                let k = v@.index_of(p);
                                assert(out@[k] == Tag::Permission(p));
                            }
                        }
                        assert(perms_in(out@) == v@.to_set());
                    }
                    Some(out)
                },
                None => None,
            },
            TagEntry::Department => match &self.departments {
                Some(v) => {
                    let out = names_to_tags(v, true);
                    Some(out)
                },
                None => None,
            },
            TagEntry::House => match &self.houses {
                Some(v) => {
                    let out = names_to_tags(v, false);
                    Some(out)
                },
                None => None,
            },
        }
    }

    /// Removes the entries that a user may not assign to themselves: the
    /// Permission entry.
    pub fn retain_user_definable(&mut self)
        ensures
            final(self)@ == (TagsView { permissions: None, ..old(self)@ }),
    {
        self.permissions = None;
    }

    /// Makes sure the Permission entry exists, creating it empty.
    pub fn initialize_permissions(&mut self)
        ensures
            final(self)@ == (TagsView {
                permissions: Some(
                    match old(self)@.permissions {
                        Some(s) => s,
                        None => Set::empty(),
                    },
                ),
                ..old(self)@
            }),
    {
        if self.permissions.is_none() {
            self.permissions = Some(Vec::new());
            assert(Seq::<Permission>::empty().to_set() == Set::<Permission>::empty());
        }
    }

    /// Replaces the Department entry: cleared where it exists, then filled
    /// with `names` where there is at least one.
    pub fn set_departments(&mut self, names: Vec<String>)
        ensures
            final(self)@ == (TagsView {
                departments: if names@.len() > 0 {
                    Some(names_of(names@))
                } else {
                    match old(self)@.departments {
                        Some(_) => Some(Set::empty()),
                        None => None,
                    }
                },
                ..old(self)@
            }),
    {
        if names.len() > 0 {
            let mut v: Vec<String> = Vec::new();
            let mut i: usize = 0;
            proof {
                assert(names_of(Seq::<String>::empty()) == Set::<Seq<char>>::empty());
            }
            while i < names.len()
                invariant
                    i <= names@.len(),
                    names_of(v@) == names_of(names@.subrange(0, i as int)),
                decreases names@.len() - i,
            {
                proof {
                    lemma_names_push(names@.subrange(0, i as int), names@[i as int]);
                    assert(names@.subrange(0, i + 1 as int) == names@.subrange(0, i as int).push(
                        names@[i as int],
                    ));
                }
                insert_name(&mut v, names[i].clone());
                i = i + 1;
            }
            assert(names@.subrange(0, names@.len() as int) == names@);
            self.departments = Some(v);
        } else if self.departments.is_some() {
            self.departments = Some(Vec::new());
            assert(names_of(Seq::<String>::empty()) == Set::<Seq<char>>::empty());
        }
    }

    /// Replaces the Permission entry with the given permissions.
    fn replace_permissions(&mut self, perms: Vec<Permission>)
        ensures
            final(self)@ == (TagsView { permissions: Some(perms@.to_set()), ..old(self)@ }),
    {
        self.permissions = Some(perms);
    }
}

/// Sets the Permission entry of `target` on behalf of `delegator`.
///
/// The delegator must hold [`Permission::SetPermissions`] and every
/// requested permission; otherwise the delegation is refused and the
/// target left as it was. The target then receives exactly the requested
/// permissions, unless it already holds a permission the delegator lacks,
/// in which case it is left as it was.
pub fn set_permissions(delegator: &Tags, target: &mut Tags, requested: &Vec<Permission>) -> (r:
    Result<(), Error>)
    ensures
        !delegation_allowed(delegator@, requested@.to_set()) ==> r == Err::<(), Error>(
            Error::PermissionDenied,
        ) && final(target)@ == old(target)@,
        delegation_allowed(delegator@, requested@.to_set()) ==> r is Ok && final(target)@ == (
        TagsView {
            permissions: delegated(
                delegator@.permissions->0,
                old(target)@.permissions,
                requested@.to_set(),
            ),
            ..old(target)@
        }),
{
    if !delegator.contains_permission(Permission::SetPermissions) {
        return Err(Error::PermissionDenied);
    }
    let own = match &delegator.permissions {
        Some(v) => v,
        None => {
            return Err(Error::PermissionDenied);
        },
    };
    let mut k: usize = 0;
    while k < requested.len()
        invariant
            k <= requested@.len(),
            delegator@.permissions == Some(own@.to_set()),
            forall|j: int| 0 <= j < k ==> own@.contains(#[trigger] requested@[j]),
        decreases requested@.len() - k,
    {
        if !contains_perm(own, requested[k]) {
            proof {
                assert(requested@.to_set().contains(requested@[k as int]));
                assert(!own@.to_set().contains(requested@[k as int]));
            }
            return Err(Error::PermissionDenied);
        }
        k = k + 1;
    }
    proof {
        assert forall|p: Permission| requested@.to_set().contains(p) implies own@.to_set().contains(
            p,
        ) by {
            let j = requested@.index_of(p);
            assert(own@.contains(requested@[j]));
        }
    }
    let exceeds = match &target.permissions {
        Some(t) => {
            let mut i: usize = 0;
            let mut found = false;
            while i < t.len()
                invariant
                    i <= t@.len(),
                    found == exists|k: int| 0 <= k < i && !own@.contains(#[trigger] t@[k]),
                decreases t@.len() - i,
            {
                if !contains_perm(own, t[i]) {
                    found = true;
                }
                i = i + 1;
            }
            proof {
                if found {
                    let k = choose|k: int| 0 <= k < t@.len() && !own@.contains(#[trigger] t@[k]);
                    assert(t@.to_set().contains(t@[k]));
                } else {
                    assert forall|p: Permission| t@.to_set().contains(p) implies own@.to_set().contains(
                        p,
                    ) by {
                        let k = t@.index_of(p);
                        assert(own@.contains(t@[k]));
                    }
                }
            }
            found
        },
        None => false,
    };
    if !exceeds {
        target.replace_permissions(slice_to_vec(requested.as_slice()));
    }
    Ok(())
}

/// A delegation goes ahead only for a request within the delegator's own
/// permissions, and then grants exactly the request, whenever the
/// target's present grant does not exceed the delegator's: what it leaves
/// on the target never exceeds the delegator's permissions.
pub proof fn lemma_delegation_within_grant(
    delegator: TagsView,
    target: Option<Set<Permission>>,
    requested: Set<Permission>,
)
    requires
        target matches Some(t) ==> t.subset_of(delegator.permissions->0),
    ensures
        delegation_allowed(delegator, requested) ==> requested.subset_of(
            delegator.permissions->0,
        ),
        delegation_allowed(delegator, requested) ==> delegated(
            delegator.permissions->0,
            target,
            requested,
        ) == Some(requested),
        delegation_allowed(delegator, requested) ==> (delegated(
            delegator.permissions->0,
            target,
            requested,
        ) matches Some(g) && g.subset_of(delegator.permissions->0)),
{
}

} // verus!
