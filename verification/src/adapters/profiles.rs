//! The project's map from roles to the profiles their workers run with, checked when it
//! is built and resolved role by role.
use vstd::prelude::*;

use crate::names::{role_name, role_name_spec, Role};
use crate::settings::ProfileSpec;
use crate::text::{chars_of, join_spec, push_str, push_string, trim, trim_range};

verus! {

/// The profiles configured for one role: the first is its primary, the rest fallbacks.
#[derive(Debug, Clone, PartialEq, Eq)]
pub struct RoleEntry {
    pub role: Role,
    pub profiles: Vec<ProfileSpec>,
}

/// A role resolved to the profile its worker runs with, and the ones to fall back to.
#[derive(Debug, Clone, PartialEq, Eq)]
pub struct ResolvedRole {
    pub role: Role,
    pub primary: ProfileSpec,
    pub fallbacks: Vec<ProfileSpec>,
}

/// Why a role map is refused, or a role cannot be resolved.
#[derive(Debug, Clone, PartialEq, Eq)]
pub enum ProfileError {
    DuplicateRole { role: Role },
    NoProfiles { role: Role },
    IncompleteProfile { profile: String, field: String },
    UnmappedRole { role: Role, configured: Vec<Role> },
}

/// What a [`ProfileError`] says.
pub enum ProfileErrorView {
    DuplicateRole(Role),
    NoProfiles(Role),
    IncompleteProfile(Seq<char>, Seq<char>),
    UnmappedRole(Role, Seq<Role>),
}

impl View for ProfileError {
    type V = ProfileErrorView;

    open spec fn view(&self) -> ProfileErrorView {
        match self {
            ProfileError::DuplicateRole { role } => ProfileErrorView::DuplicateRole(*role),
            ProfileError::NoProfiles { role } => ProfileErrorView::NoProfiles(*role),
            ProfileError::IncompleteProfile { profile, field } => ProfileErrorView::IncompleteProfile(
                profile@,
                field@,
            ),
            ProfileError::UnmappedRole { role, configured } => ProfileErrorView::UnmappedRole(
                *role,
                configured@,
            ),
        }
    }
}

/// The roles, in the order the map lists them.
pub open spec fn all_roles() -> Seq<Role> {
    seq![Role::Plan, Role::Build, Role::Review, Role::Fix]
}

/// The field a profile leaves blank, checked in the order harness, model, effort.
pub open spec fn missing_field_spec(spec: ProfileSpec) -> Option<Seq<char>> {
    if trim(spec.harness@).len() == 0 {
        Some("harness"@)
    } else if trim(spec.model@).len() == 0 {
        Some("model"@)
    } else if trim(spec.effort@).len() == 0 {
        Some("effort"@)
    } else {
        None
    }
}

fn is_blank(s: &String) -> (b: bool)
    ensures
        b == (trim(s@).len() == 0),
{
    let v = chars_of(s.as_str());
    assert(v@.subrange(0, v@.len() as int) == v@);
    let (a, b) = trim_range(&v, 0, v.len());
    a == b
}

fn missing_field(spec: &ProfileSpec) -> (r: Option<&'static str>)
    ensures
        match r {
            Some(f) => missing_field_spec(*spec) == Some(f@),
            None => missing_field_spec(*spec) is None,
        },
{
    if is_blank(&spec.harness) {
        Some("harness")
    } else if is_blank(&spec.model) {
        Some("model")
    } else if is_blank(&spec.effort) {
        Some("effort")
    } else {
        None
    }
}

/// The first profile of `profiles` that leaves a field blank, with that field.
pub open spec fn first_incomplete(profiles: Seq<ProfileSpec>) -> Option<(Seq<char>, Seq<char>)>
    decreases profiles.len(),
{
    if profiles.len() == 0 {
        None
    } else {
        match missing_field_spec(profiles[0]) {
            Some(field) => Some((profiles[0].profile@, field)),
            None => first_incomplete(profiles.drop_first()),
        }
    }
}

/// The role map `entries` build, read in order: the first entry that repeats a role,
/// has no profile, or holds a profile with a blank field is the error.
pub open spec fn role_map(entries: Seq<RoleEntry>) -> Result<Map<Role, Seq<ProfileSpec>>, ProfileErrorView>
    decreases entries.len(),
{
    if entries.len() == 0 {
        Ok(Map::empty())
    } else {
        match role_map(entries.drop_last()) {
            Err(e) => Err(e),
            Ok(map) => {
                let entry = entries.last();
                if map.contains_key(entry.role) {
                    Err(ProfileErrorView::DuplicateRole(entry.role))
                } else if entry.profiles@.len() == 0 {
                    Err(ProfileErrorView::NoProfiles(entry.role))
                } else {
                    match first_incomplete(entry.profiles@) {
                        Some((profile, field)) => Err(
                            ProfileErrorView::IncompleteProfile(profile, field),
                        ),
                        None => Ok(map.insert(entry.role, entry.profiles@)),
                    }
                }
            },
        }
    }
}

/// A role map that is built holds every entry: each entry's role is configured with
/// exactly that entry's profiles, and no other role is configured.
pub proof fn lemma_role_map_holds_entries(entries: Seq<RoleEntry>)
    requires
        role_map(entries) is Ok,
    ensures
        forall|i: int|
            0 <= i < entries.len() ==> role_map(entries)->Ok_0.contains_key(
                (#[trigger] entries[i]).role,
            ) && role_map(entries)->Ok_0[entries[i].role] == entries[i].profiles@,
        forall|role: Role|
            #[trigger] role_map(entries)->Ok_0.contains_key(role) ==> exists|i: int|
                0 <= i < entries.len() && (#[trigger] entries[i]).role == role,
    decreases entries.len(),
{
    if entries.len() > 0 {
        let prefix = entries.drop_last();
        lemma_role_map_holds_entries(prefix);
        let map = role_map(prefix)->Ok_0;
        let last = entries.last();
        assert forall|i: int| 0 <= i < entries.len() implies role_map(entries)->Ok_0.contains_key(
            (#[trigger] entries[i]).role,
        ) && role_map(entries)->Ok_0[entries[i].role] == entries[i].profiles@ by {
            if i < entries.len() - 1 {
                assert(entries[i] == prefix[i]);
                assert(map.contains_key(prefix[i].role));
            }
        }
        assert forall|role: Role| #[trigger] role_map(entries)->Ok_0.contains_key(role) implies exists|
            i: int,
        | 0 <= i < entries.len() && (#[trigger] entries[i]).role == role by {
            if role == last.role {
                assert(entries[entries.len() - 1].role == role);
            } else {
                assert(map.contains_key(role));
                let i = choose|i: int| 0 <= i < prefix.len() && (#[trigger] prefix[i]).role == role;
                assert(entries[i] == prefix[i]);
            }
        }
    }
}

/// Once a prefix of the entries is refused, so are all of them, with the same error.
proof fn lemma_role_map_err(entries: Seq<RoleEntry>, n: int)
    requires
        0 <= n <= entries.len(),
        role_map(entries.take(n)) is Err,
    ensures
        role_map(entries) == role_map(entries.take(n)),
    decreases entries.len() - n,
{
    if n < entries.len() {
        assert(entries.take(n + 1).drop_last() == entries.take(n));
        lemma_role_map_err(entries, n + 1);
    } else {
        assert(entries.take(n) == entries);
    }
}

/// A project's role-to-profiles map, checked when it was built.
#[derive(Debug, Clone)]
pub struct ConfiguredProfiles {
    plan: Option<Vec<ProfileSpec>>,
    build: Option<Vec<ProfileSpec>>,
    review: Option<Vec<ProfileSpec>>,
    fix: Option<Vec<ProfileSpec>>,
}

impl ConfiguredProfiles {
    pub closed spec fn slot(&self, role: Role) -> Option<Vec<ProfileSpec>> {
        match role {
            Role::Plan => self.plan,
            Role::Build => self.build,
            Role::Review => self.review,
            Role::Fix => self.fix,
        }
    }

    /// The profiles of each configured role.
    pub closed spec fn map_view(&self) -> Map<Role, Seq<ProfileSpec>> {
        Map::new(|role: Role| self.slot(role) is Some, |role: Role| self.slot(role)->0@)
    }

    /// Every configured role holds a profile.
    pub closed spec fn wf(&self) -> bool {
        forall|role: Role| #[trigger] self.slot(role) matches Some(v) ==> v@.len() > 0
    }

    fn slot_of(&self, role: Role) -> (r: &Option<Vec<ProfileSpec>>)
        ensures
            *r == self.slot(role),
    {
        match role {
            Role::Plan => &self.plan,
            Role::Build => &self.build,
            Role::Review => &self.review,
            Role::Fix => &self.fix,
        }
    }

    fn put(&mut self, role: Role, profiles: Vec<ProfileSpec>)
        ensures
            forall|r: Role| r != role ==> final(self).slot(r) == old(self).slot(r),
            final(self).slot(role) == Some(profiles),
    {
        match role {
            Role::Plan => self.plan = Some(profiles),
            Role::Build => self.build = Some(profiles),
            Role::Review => self.review = Some(profiles),
            Role::Fix => self.fix = Some(profiles),
        }
    }

    /// Builds the map from its entries.
    #[verifier::loop_isolation(false)]
    pub fn from_entries(entries: Vec<RoleEntry>) -> (r: Result<ConfiguredProfiles, ProfileError>)
        ensures
            match role_map(entries@) {
                Ok(map) => r matches Ok(c) && c.map_view() == map && c.wf(),
                Err(e) => r matches Err(err) && err@ == e,
            },
    {
        let ghost all = entries@;
        let n = entries.len();
        let mut rest = entries;
        let mut c = ConfiguredProfiles { plan: None, build: None, review: None, fix: None };
        let mut i: usize = 0;
        assert(c.map_view() == Map::<Role, Seq<ProfileSpec>>::empty());
        assert(all.take(0) == Seq::<RoleEntry>::empty());
        assert(all.skip(0) == all);
        while rest.len() > 0
            invariant
                i + rest@.len() == all.len(),
                all.len() == n,
                rest@ == all.skip(i as int),
                role_map(all.take(i as int)) == Ok::<
                    Map<Role, Seq<ProfileSpec>>,
                    ProfileErrorView,
                >(c.map_view()),
                c.wf(),
            decreases rest@.len(),
        {
            let entry = rest.remove(0);
            assert(entry == all[i as int]);
            assert(rest@ == all.skip(i + 1));
            assert(all.take(i + 1).drop_last() == all.take(i as int));
            assert(all.take(i + 1).last() == all[i as int]);
            if c.slot_of(entry.role).is_some() {
                assert(c.map_view().contains_key(entry.role));
                proof {
                    lemma_role_map_err(all, i + 1);
                }
                return Err(ProfileError::DuplicateRole { role: entry.role });
            }
            if entry.profiles.len() == 0 {
                proof {
                    lemma_role_map_err(all, i + 1);
                }
                return Err(ProfileError::NoProfiles { role: entry.role });
            }
            let mut k: usize = 0;
            assert(entry.profiles@.skip(0) == entry.profiles@);
            while k < entry.profiles.len()
                invariant
                    k <= entry.profiles@.len(),
                    first_incomplete(entry.profiles@) == first_incomplete(
                        entry.profiles@.skip(k as int),
                    ),
                decreases entry.profiles@.len() - k,
            {
                let spec = &entry.profiles[k];
                assert(entry.profiles@.skip(k as int)[0] == entry.profiles@[k as int]);
                assert(entry.profiles@.skip(k as int).drop_first() == entry.profiles@.skip(k + 1));
                match missing_field(spec) {
                    Some(field) => {
                        proof {
                            lemma_role_map_err(all, i + 1);
                        }
                        return Err(
                            ProfileError::IncompleteProfile {
                                profile: spec.profile.clone(),
                                field: field.to_string(),
                            },
                        );
                    },
                    None => {},
                }
                k = k + 1;
            }
            assert(entry.profiles@.skip(k as int).len() == 0);
            let ghost before = c.map_view();
            let role = entry.role;
            c.put(role, entry.profiles);
            assert(c.map_view() == before.insert(role, all[i as int].profiles@));
            i = i + 1;
        }
        assert(all.take(i as int) == all);
        Ok(c)
    }

    /// The configured roles, in the order plan, build, review, fix.
    pub fn roles(&self) -> (r: Vec<Role>)
        ensures
            r@ == all_roles().filter(|role: Role| self.map_view().contains_key(role)),
    {
        assert(self.map_view().contains_key(Role::Plan) == self.plan is Some);
        assert(self.map_view().contains_key(Role::Build) == self.build is Some);
        assert(self.map_view().contains_key(Role::Review) == self.review is Some);
        assert(self.map_view().contains_key(Role::Fix) == self.fix is Some);
        let mut r: Vec<Role> = Vec::new();
        if self.plan.is_some() {
            r.push(Role::Plan);
        }
        if self.build.is_some() {
            r.push(Role::Build);
        }
        if self.review.is_some() {
            r.push(Role::Review);
        }
        if self.fix.is_some() {
            r.push(Role::Fix);
        }
        proof {
            reveal_with_fuel(vstd::seq::Seq::filter, 5);
        }
        r
    }
}

impl ConfiguredProfiles {
    /// A map with no role configured.
    pub fn empty() -> (r: ConfiguredProfiles)
        ensures
            r.map_view() == Map::<Role, Seq<ProfileSpec>>::empty(),
            r.wf(),
    {
        let r = ConfiguredProfiles { plan: None, build: None, review: None, fix: None };
        assert(r.map_view() == Map::<Role, Seq<ProfileSpec>>::empty());
        r
    }

    /// The profiles of `role`: its first configured profile, then the others to fall
    /// back to; a role the map does not configure is refused, naming the configured ones.
    pub fn resolve(&self, role: Role) -> (r: Result<ResolvedRole, ProfileError>)
        requires
            self.wf(),
        ensures
            match r {
                Ok(resolved) => self.map_view().contains_key(role) && self.map_view()[role].len() >= 1
                    && resolved.role == role && resolved.primary == self.map_view()[role][0] && resolved.fallbacks@
                    == self.map_view()[role].skip(1),
                Err(e) => !self.map_view().contains_key(role) && e@ == ProfileErrorView::UnmappedRole(
                    role,
                    all_roles().filter(|r: Role| self.map_view().contains_key(r)),
                ),
            },
    {
        match self.slot_of(role) {
            Some(profiles) => {
                assert(profiles@.len() > 0);
                let primary = copy_spec(&profiles[0]);
                let mut fallbacks: Vec<ProfileSpec> = Vec::new();
                let mut i: usize = 1;
                while i < profiles.len()
                    invariant
                        1 <= i <= profiles@.len(),
                        fallbacks@ == profiles@.subrange(1, i as int),
                    decreases profiles@.len() - i,
                {
                    fallbacks.push(copy_spec(&profiles[i]));
                    i = i + 1;
                }
                assert(profiles@.subrange(1, profiles@.len() as int) == profiles@.skip(1));
                Ok(ResolvedRole { role, primary, fallbacks })
            },
            None => {
                let configured = self.roles();
                Err(ProfileError::UnmappedRole { role, configured })
            },
        }
    }
}

/// A copy of a profile, field by field.
pub(crate) fn copy_spec(p: &ProfileSpec) -> (r: ProfileSpec)
    ensures
        r == *p,
{
    ProfileSpec {
        profile: p.profile.clone(),
        harness: p.harness.clone(),
        model: p.model.clone(),
        effort: p.effort.clone(),
        account: p.account.clone(),
    }
}

/// The names of the roles, joined with `, `, or `none` when there are none.
pub open spec fn configured_text(roles: Seq<Role>) -> Seq<char> {
    if roles.len() == 0 {
        "none"@
    } else {
        join_spec(Seq::new(roles.len(), |i: int| role_name_spec(roles[i])), ", "@)
    }
}

impl ProfileError {
    /// The message shown for this error.
    pub open spec fn message_spec(&self) -> Seq<char> {
        match self {
            ProfileError::DuplicateRole { role } => "the role "@ + role_name_spec(*role)
                + " is configured more than once"@,
            ProfileError::NoProfiles { role } => "the role "@ + role_name_spec(*role)
                + " is configured with no profile, so depot cannot resolve it"@,
            ProfileError::IncompleteProfile { profile, field } => "the profile "@ + profile@
                + " declares no "@ + field@ + ", so depot cannot launch with it"@,
            ProfileError::UnmappedRole { role, configured } => "no profile is configured for the role "@
                + role_name_spec(*role)
                + ", which is not a role depot guesses; configured roles: "@ + configured_text(
                configured@,
            ),
        }
    }

    pub fn message(&self) -> (r: String)
        ensures
            r@ == self.message_spec(),
    {
        let mut m = String::new();
        match self {
            ProfileError::DuplicateRole { role } => {
                push_str(&mut m, "the role ");
                push_str(&mut m, role_name(*role));
                push_str(&mut m, " is configured more than once");
            },
            ProfileError::NoProfiles { role } => {
                push_str(&mut m, "the role ");
                push_str(&mut m, role_name(*role));
                push_str(&mut m, " is configured with no profile, so depot cannot resolve it");
            },
            ProfileError::IncompleteProfile { profile, field } => {
                push_str(&mut m, "the profile ");
                push_string(&mut m, profile);
                push_str(&mut m, " declares no ");
                push_string(&mut m, field);
                push_str(&mut m, ", so depot cannot launch with it");
            },
            ProfileError::UnmappedRole { role, configured } => {
                push_str(&mut m, "no profile is configured for the role ");
                push_str(&mut m, role_name(*role));
                push_str(&mut m, ", which is not a role depot guesses; configured roles: ");
                if configured.len() == 0 {
                    push_str(&mut m, "none");
                } else {
                    let ghost names = Seq::new(configured@.len(), |i: int| role_name_spec(configured@[i]));
                    let mut i: usize = 0;
                    let ghost start = m@;
                    while i < configured.len()
                        invariant
                            i <= configured@.len(),
                            names == Seq::new(configured@.len(), |i: int| role_name_spec(configured@[i])),
                            m@ == start + join_spec(names.take(i as int), ", "@),
                        decreases configured@.len() - i,
                    {
                        if i > 0 {
                            push_str(&mut m, ", ");
                        }
                        push_str(&mut m, role_name(configured[i]));
                        proof {
                            assert(names.take(i + 1).drop_last() == names.take(i as int));
                            assert(names.take(i + 1).last() == role_name_spec(configured@[i as int]));
                            if i == 0 {
                                assert(names.take(0).len() == 0);
                            }
                        }
                        i = i + 1;
                    }
                    assert(names.take(configured@.len() as int) == names);
                }
            },
        }
        m
    }
}

} // verus!
