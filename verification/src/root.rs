//! The five standard registry hives and the per-hive selection set.
use vstd::prelude::*;

verus! {

/// Numeric value of the platform handle for HKEY_CLASSES_ROOT.
pub const HANDLE_CLASSES_ROOT: isize = -2147483648;

/// Numeric value of the platform handle for HKEY_CURRENT_USER.
pub const HANDLE_CURRENT_USER: isize = -2147483647;

/// Numeric value of the platform handle for HKEY_LOCAL_MACHINE.
pub const HANDLE_LOCAL_MACHINE: isize = -2147483646;

/// Numeric value of the platform handle for HKEY_USERS.
pub const HANDLE_USERS: isize = -2147483645;

/// Numeric value of the platform handle for HKEY_CURRENT_CONFIG.
pub const HANDLE_CURRENT_CONFIG: isize = -2147483643;

/// One of the five standard top-level registry hives.
#[derive(Clone, Copy, PartialEq, Eq, Structural, Debug)]
pub enum Root {
    HkeyClassesRoot,
    HkeyCurrentUser,
    HkeyLocalMachine,
    HkeyUsers,
    HkeyCurrentConfig,
}

impl Root {
    /// The stable integer tag of this hive, in tag order.
    pub open spec fn spec_tag(self) -> u8 {
        match self {
            Root::HkeyClassesRoot => 0,
            Root::HkeyCurrentUser => 1,
            Root::HkeyLocalMachine => 2,
            Root::HkeyUsers => 3,
            Root::HkeyCurrentConfig => 4,
        }
    }

    /// The numeric value of the platform handle of this hive.
    pub open spec fn spec_handle(self) -> isize {
        match self {
            Root::HkeyClassesRoot => HANDLE_CLASSES_ROOT,
            Root::HkeyCurrentUser => HANDLE_CURRENT_USER,
            Root::HkeyLocalMachine => HANDLE_LOCAL_MACHINE,
            Root::HkeyUsers => HANDLE_USERS,
            Root::HkeyCurrentConfig => HANDLE_CURRENT_CONFIG,
        }
    }

    /// The canonical uppercase Windows identifier of this hive.
    pub open spec fn spec_name(self) -> Seq<char> {
        match self {
            Root::HkeyClassesRoot => "HKEY_CLASSES_ROOT"@,
            Root::HkeyCurrentUser => "HKEY_CURRENT_USER"@,
            Root::HkeyLocalMachine => "HKEY_LOCAL_MACHINE"@,
            Root::HkeyUsers => "HKEY_USERS"@,
            Root::HkeyCurrentConfig => "HKEY_CURRENT_CONFIG"@,
        }
    }

    /// The hive whose tag is `value`, if the tag is valid.
    pub open spec fn spec_from_u8(value: u8) -> Option<Root> {
        if value == 0 {
            Some(Root::HkeyClassesRoot)
        } else if value == 1 {
            Some(Root::HkeyCurrentUser)
        } else if value == 2 {
            Some(Root::HkeyLocalMachine)
        } else if value == 3 {
            Some(Root::HkeyUsers)
        } else if value == 4 {
            Some(Root::HkeyCurrentConfig)
        } else {
            None
        }
    }

    /// The hive whose platform handle is `value`, if any hive has it.
    pub open spec fn spec_from_isize(value: isize) -> Option<Root> {
        if value == HANDLE_CLASSES_ROOT {
            Some(Root::HkeyClassesRoot)
        } else if value == HANDLE_CURRENT_USER {
            Some(Root::HkeyCurrentUser)
        } else if value == HANDLE_LOCAL_MACHINE {
            Some(Root::HkeyLocalMachine)
        } else if value == HANDLE_USERS {
            Some(Root::HkeyUsers)
        } else if value == HANDLE_CURRENT_CONFIG {
            Some(Root::HkeyCurrentConfig)
        } else {
            None
        }
    }

    /// The stable integer tag of this hive.
    pub fn tag(&self) -> (r: u8)
        ensures
            r == self.spec_tag(),
    {
        match self {
            Root::HkeyClassesRoot => 0,
            Root::HkeyCurrentUser => 1,
            Root::HkeyLocalMachine => 2,
            Root::HkeyUsers => 3,
            Root::HkeyCurrentConfig => 4,
        }
    }

    /// The numeric value of the platform handle of this hive.
    pub fn handle(&self) -> (r: isize)
        ensures
            r == self.spec_handle(),
    {
        match self {
            Root::HkeyClassesRoot => HANDLE_CLASSES_ROOT,
            Root::HkeyCurrentUser => HANDLE_CURRENT_USER,
            Root::HkeyLocalMachine => HANDLE_LOCAL_MACHINE,
            Root::HkeyUsers => HANDLE_USERS,
            Root::HkeyCurrentConfig => HANDLE_CURRENT_CONFIG,
        }
    }

    /// The canonical uppercase Windows identifier of this hive.
    pub fn name(&self) -> (r: String)
        ensures
            r@ == self.spec_name(),
    {
        match self {
            Root::HkeyClassesRoot => "HKEY_CLASSES_ROOT".to_owned(),
            Root::HkeyCurrentUser => "HKEY_CURRENT_USER".to_owned(),
            Root::HkeyLocalMachine => "HKEY_LOCAL_MACHINE".to_owned(),
            Root::HkeyUsers => "HKEY_USERS".to_owned(),
            Root::HkeyCurrentConfig => "HKEY_CURRENT_CONFIG".to_owned(),
        }
    }

    /// Total conversion from a tag in [0, 4]; absent for any other tag.
    pub fn from_u8(value: u8) -> (r: Option<Root>)
        ensures
            r == Root::spec_from_u8(value),
            value <= 4 ==> r is Some && r->0.spec_tag() == value,
            value > 4 ==> r is None,
    {
        match value {
            0 => Some(Root::HkeyClassesRoot),
            1 => Some(Root::HkeyCurrentUser),
            2 => Some(Root::HkeyLocalMachine),
            3 => Some(Root::HkeyUsers),
            4 => Some(Root::HkeyCurrentConfig),
            _ => None,
        }
    }

    /// Total conversion from a platform handle; absent for any other value.
    pub fn from_isize(value: isize) -> (r: Option<Root>)
        ensures
            r == Root::spec_from_isize(value),
            r is Some ==> r->0.spec_handle() == value,
    {
        if value == HANDLE_CLASSES_ROOT {
            Some(Root::HkeyClassesRoot)
        } else if value == HANDLE_CURRENT_USER {
            Some(Root::HkeyCurrentUser)
        } else if value == HANDLE_LOCAL_MACHINE {
            Some(Root::HkeyLocalMachine)
        } else if value == HANDLE_USERS {
            Some(Root::HkeyUsers)
        } else if value == HANDLE_CURRENT_CONFIG {
            Some(Root::HkeyCurrentConfig)
        } else {
            None
        }
    }

    /// All five hives in tag order.
    pub fn all() -> (r: Vec<Root>)
        ensures
            r@.len() == 5,
            forall|i: int| 0 <= i < 5 ==> (#[trigger] r@[i]).spec_tag() == i,
    {
        let mut v: Vec<Root> = Vec::new();
        v.push(Root::HkeyClassesRoot);
        v.push(Root::HkeyCurrentUser);
        v.push(Root::HkeyLocalMachine);
        v.push(Root::HkeyUsers);
        v.push(Root::HkeyCurrentConfig);
        v
    }
}

/// Which hives are enabled for the next crawl.
#[derive(Clone, Copy, PartialEq, Eq, Structural, Debug)]
pub struct SelectedRoots {
    pub classes_root: bool,
    pub current_user: bool,
    pub local_machine: bool,
    pub users: bool,
    pub current_config: bool,
}

impl SelectedRoots {
    /// Whether `root` is enabled in this selection.
    pub open spec fn spec_enabled(self, root: Root) -> bool {
        match root {
            Root::HkeyClassesRoot => self.classes_root,
            Root::HkeyCurrentUser => self.current_user,
            Root::HkeyLocalMachine => self.local_machine,
            Root::HkeyUsers => self.users,
            Root::HkeyCurrentConfig => self.current_config,
        }
    }

    /// This selection with the flag of `root` flipped.
    pub open spec fn spec_toggle(self, root: Root) -> SelectedRoots {
        match root {
            Root::HkeyClassesRoot => SelectedRoots { classes_root: !self.classes_root, ..self },
            Root::HkeyCurrentUser => SelectedRoots { current_user: !self.current_user, ..self },
            Root::HkeyLocalMachine => SelectedRoots { local_machine: !self.local_machine, ..self },
            Root::HkeyUsers => SelectedRoots { users: !self.users, ..self },
            Root::HkeyCurrentConfig => SelectedRoots { current_config: !self.current_config, ..self },
        }
    }

    /// The handles of the enabled hives, in tag order.
    pub open spec fn spec_export(self) -> Seq<isize> {
        (if self.classes_root {
            seq![HANDLE_CLASSES_ROOT]
        } else {
            Seq::empty()
        }) + (if self.current_user {
            seq![HANDLE_CURRENT_USER]
        } else {
            Seq::empty()
        }) + (if self.local_machine {
            seq![HANDLE_LOCAL_MACHINE]
        } else {
            Seq::empty()
        }) + (if self.users {
            seq![HANDLE_USERS]
        } else {
            Seq::empty()
        }) + (if self.current_config {
            seq![HANDLE_CURRENT_CONFIG]
        } else {
            Seq::empty()
        })
    }

    /// The default selection: LocalMachine and Users enabled, others disabled.
    pub open spec fn spec_default() -> SelectedRoots {
        SelectedRoots {
            classes_root: false,
            current_user: false,
            local_machine: true,
            users: true,
            current_config: false,
        }
    }

    /// Whether `root` is enabled in this selection.
    pub fn is_enabled(&self, root: &Root) -> (r: bool)
        ensures
            r == self.spec_enabled(*root),
    {
        match root {
            Root::HkeyClassesRoot => self.classes_root,
            Root::HkeyCurrentUser => self.current_user,
            Root::HkeyLocalMachine => self.local_machine,
            Root::HkeyUsers => self.users,
            Root::HkeyCurrentConfig => self.current_config,
        }
    }

    /// Flip the enabled flag of `root`.
    pub fn toggle(&mut self, root: &Root)
        ensures
            *final(self) == old(self).spec_toggle(*root),
    {
        match root {
            Root::HkeyClassesRoot => self.classes_root = !self.classes_root,
            Root::HkeyCurrentUser => self.current_user = !self.current_user,
            Root::HkeyLocalMachine => self.local_machine = !self.local_machine,
            Root::HkeyUsers => self.users = !self.users,
            Root::HkeyCurrentConfig => self.current_config = !self.current_config,
        }
    }

    /// The handles of the enabled hives, in tag order.
    pub fn export_roots(&self) -> (r: Vec<isize>)
        ensures
            r@ == self.spec_export(),
    {
        let mut selected_roots: Vec<isize> = Vec::new();
        if self.classes_root {
            selected_roots.push(HANDLE_CLASSES_ROOT);
        }
        if self.current_user {
            selected_roots.push(HANDLE_CURRENT_USER);
        }
        if self.local_machine {
            selected_roots.push(HANDLE_LOCAL_MACHINE);
        }
        if self.users {
            selected_roots.push(HANDLE_USERS);
        }
        if self.current_config {
            selected_roots.push(HANDLE_CURRENT_CONFIG);
        }
        proof {
            assert(selected_roots@ =~= self.spec_export());
        }
        selected_roots
    }
}

impl Default for SelectedRoots {
    /// The default selection: LocalMachine and Users enabled, others disabled.
    fn default() -> (r: SelectedRoots)
        ensures
            r == SelectedRoots::spec_default(),
    {
        SelectedRoots {
            classes_root: false,
            current_user: false,
            local_machine: true,
            users: true,
            current_config: false,
        }
    }
}

/// Toggling the same hive twice returns the selection to its prior contents.
pub proof fn lemma_toggle_twice_is_identity(s: SelectedRoots, root: Root)
    ensures
        s.spec_toggle(root).spec_toggle(root) == s,
{
}

} // verus!
