//! The seccomp profile: a default action, the architectures it is for, and
//! rules that give an action to sets of syscall names.

use crate::text::texts;
use vstd::prelude::*;

verus! {

/// What the kernel does with a syscall.
#[derive(Clone, Copy, Debug, PartialEq, Eq, Structural)]
pub enum Action {
    Kill,
    KillProcess,
    Trap,
    Errno,
    Notify,
    Trace,
    Log,
    Allow,
}

/// A CPU architecture that a profile can name.
#[derive(Clone, Copy, Debug, PartialEq, Eq, Structural)]
pub enum Arch {
    Native,
    X86,
    X86_64,
    X32,
    Arm,
    Aarch64,
    Mips,
    Mips64,
    Mips64n32,
    Mipsel,
    Mipsel64,
    Mipsel64n32,
    Ppc,
    Ppc64,
    Ppc64le,
    S390,
    S390x,
}

/// A flag of the filter as a whole.
#[derive(Clone, Copy, Debug, PartialEq, Eq, Structural)]
pub enum FilterFlag {
    Log,
    Tsync,
    SpecAllow,
}

/// How a syscall argument is compared with a value.
#[derive(Clone, Copy, Debug, PartialEq, Eq, Structural)]
pub enum Operator {
    NotEqual,
    LessThan,
    LessEqual,
    EqualTo,
    GreaterEqual,
    GreaterThan,
    MaskedEqual,
}

/// A condition on one argument of a syscall.
#[derive(Clone, Copy, Debug, PartialEq, Eq, Structural)]
pub struct ArgCondition {
    pub index: usize,
    pub value: u64,
    pub value_two: Option<u64>,
    pub op: Operator,
}

/// One rule of a profile: the action for a list of syscall names.
#[derive(Clone, Debug, PartialEq, Eq)]
pub struct SyscallRule {
    pub names: Vec<String>,
    pub action: Action,
    pub errno_ret: Option<u32>,
    pub args: Option<Vec<ArgCondition>>,
}

/// A seccomp profile as the container runtime reads it.
#[derive(Clone, Debug, PartialEq, Eq)]
pub struct SeccompProfile {
    pub default_action: Action,
    pub default_errno_ret: Option<u32>,
    pub architectures: Option<Vec<Arch>>,
    pub flags: Option<Vec<FilterFlag>>,
    pub listener_path: Option<String>,
    pub listener_metadata: Option<String>,
    pub syscalls: Option<Vec<SyscallRule>>,
}

/// The mathematical content of a `SyscallRule`.
pub struct RuleModel {
    pub names: Seq<Seq<char>>,
    pub action: Action,
    pub errno_ret: Option<u32>,
    pub args: Option<Seq<ArgCondition>>,
}

/// The mathematical content of a `SeccompProfile`.
pub struct ProfileModel {
    pub default_action: Action,
    pub default_errno_ret: Option<u32>,
    pub architectures: Option<Seq<Arch>>,
    pub flags: Option<Seq<FilterFlag>>,
    pub listener_path: Option<Seq<char>>,
    pub listener_metadata: Option<Seq<char>>,
    pub syscalls: Option<Seq<RuleModel>>,
}

impl View for SyscallRule {
    type V = RuleModel;

    open spec fn view(&self) -> RuleModel {
        RuleModel {
            names: texts(self.names@),
            action: self.action,
            errno_ret: self.errno_ret,
            args: match self.args {
                Some(args) => Some(args@),
                None => None,
            },
        }
    }
}

/// The models of a sequence of rules, in the same order.
pub open spec fn rule_models(rules: Seq<SyscallRule>) -> Seq<RuleModel> {
    rules.map_values(|rule: SyscallRule| rule@)
}

impl View for SeccompProfile {
    type V = ProfileModel;

    open spec fn view(&self) -> ProfileModel {
        ProfileModel {
            default_action: self.default_action,
            default_errno_ret: self.default_errno_ret,
            architectures: match self.architectures {
                Some(archs) => Some(archs@),
                None => None,
            },
            flags: match self.flags {
                Some(flags) => Some(flags@),
                None => None,
            },
            listener_path: match self.listener_path {
                Some(path) => Some(path@),
                None => None,
            },
            listener_metadata: match self.listener_metadata {
                Some(data) => Some(data@),
                None => None,
            },
            syscalls: match self.syscalls {
                Some(rules) => Some(rule_models(rules@)),
                None => None,
            },
        }
    }
}

/// The models of a sequence of profiles, in the same order.
pub open spec fn profile_models(profiles: Seq<SeccompProfile>) -> Seq<ProfileModel> {
    profiles.map_values(|profile: SeccompProfile| profile@)
}

/// The rule that allows exactly `names`, without conditions.
pub open spec fn allow_rule(names: Seq<Seq<char>>) -> RuleModel {
    RuleModel { names, action: Action::Allow, errno_ret: None, args: None }
}

/// The profile that denies by default, with an error code, and allows
/// `names` on `architectures`.
pub open spec fn allow_list(names: Seq<Seq<char>>, architectures: Seq<Arch>) -> ProfileModel {
    ProfileModel {
        default_action: Action::Errno,
        default_errno_ret: None,
        architectures: Some(architectures),
        flags: None,
        listener_path: None,
        listener_metadata: None,
        syscalls: Some(seq![allow_rule(names)]),
    }
}

/// The profile that nothing was put into: it allows by default and has
/// neither architectures nor rules.
pub open spec fn empty_profile() -> ProfileModel {
    ProfileModel {
        default_action: Action::Allow,
        default_errno_ret: None,
        architectures: None,
        flags: None,
        listener_path: None,
        listener_metadata: None,
        syscalls: None,
    }
}

/// The rule gives `action` to `names`, without conditions.
pub open spec fn plain_rule(names: Seq<Seq<char>>, action: Action) -> RuleModel {
    RuleModel { names, action, errno_ret: None, args: None }
}

/// The profile with the given default action, architectures and rules, and
/// nothing else.
pub open spec fn plain_profile(
    default_action: Action,
    architectures: Option<Seq<Arch>>,
    syscalls: Option<Seq<RuleModel>>,
) -> ProfileModel {
    ProfileModel {
        default_action,
        default_errno_ret: None,
        architectures,
        flags: None,
        listener_path: None,
        listener_metadata: None,
        syscalls,
    }
}

/// A profile of the shape that the profilers give: it denies by default with
/// an error code, and each of its rules, of which it has at least one,
/// allows at least one syscall.
pub open spec fn enforcing_allow_list(profile: ProfileModel) -> bool {
    &&& profile.default_action == Action::Errno
    &&& profile.syscalls matches Some(rules) && rules.len() > 0 && forall|i: int|
        0 <= i < rules.len() ==> (#[trigger] rules[i]).names.len() > 0 && rules[i].action
            == Action::Allow
}

impl SyscallRule {
    /// The rule that gives `action` to `names`.
    pub fn new(names: Vec<String>, action: Action) -> (rule: SyscallRule)
        ensures
            rule@ == plain_rule(texts(names@), action),
    {
        SyscallRule { names, action, errno_ret: None, args: None }
    }

    /// The names of the syscalls that the rule is about.
    pub fn names(&self) -> (names: &Vec<String>)
        ensures
            texts(names@) == self@.names,
    {
        &self.names
    }

    /// The action that the rule gives to its syscalls.
    pub fn action(&self) -> (action: Action)
        ensures
            action == self@.action,
    {
        self.action
    }

    /// The rule that allows `names`.
    pub fn allowing(names: Vec<String>) -> (rule: SyscallRule)
        ensures
            rule@ == allow_rule(texts(names@)),
            rule.names == names,
    {
        SyscallRule { names, action: Action::Allow, errno_ret: None, args: None }
    }
}

impl SeccompProfile {
    /// The profile with the given default action, architectures and rules.
    pub fn new(
        default_action: Action,
        architectures: Option<Vec<Arch>>,
        syscalls: Option<Vec<SyscallRule>>,
    ) -> (profile: SeccompProfile)
        ensures
            profile@ == plain_profile(
                default_action,
                match architectures {
                    Some(archs) => Some(archs@),
                    None => None,
                },
                match syscalls {
                    Some(rules) => Some(rule_models(rules@)),
                    None => None,
                },
            ),
    {
        SeccompProfile {
            default_action,
            default_errno_ret: None,
            architectures,
            flags: None,
            listener_path: None,
            listener_metadata: None,
            syscalls,
        }
    }

    /// The action for a syscall that no rule names.
    pub fn default_action(&self) -> (action: Action)
        ensures
            action == self@.default_action,
    {
        self.default_action
    }

    /// The architectures that the profile is for.
    pub fn architectures(&self) -> (architectures: &Option<Vec<Arch>>)
        ensures
            *architectures == self.architectures,
    {
        &self.architectures
    }

    /// The rules of the profile.
    pub fn syscalls(&self) -> (syscalls: &Option<Vec<SyscallRule>>)
        ensures
            *syscalls == self.syscalls,
    {
        &self.syscalls
    }

    /// Tells whether the profile has the shape that the profilers give.
    pub fn is_enforcing_allow_list(&self) -> (holds: bool)
        ensures
            holds == enforcing_allow_list(self@),
    {
        match self.default_action {
            Action::Errno => {},
            _ => {
                return false;
            },
        }
        let rules = match &self.syscalls {
            Some(rules) => rules,
            None => {
                return false;
            },
        };
        if rules.len() == 0 {
            return false;
        }
        let ghost models = rule_models(rules@);
        let mut i: usize = 0;
        while i < rules.len()
            invariant
                i <= rules.len(),
                models == rule_models(rules@),
                self.syscalls == Some(*rules),
                self.default_action == Action::Errno,
                forall|k: int|
                    0 <= k < i ==> (#[trigger] models[k]).names.len() > 0 && models[k].action
                        == Action::Allow,
            decreases rules.len() - i,
        {
            let allows = match rules[i].action {
                Action::Allow => true,
                _ => false,
            };
            proof {
                assert(models[i as int] == rules@[i as int]@);
                assert(models[i as int].names.len() == rules@[i as int].names@.len());
                assert(self@.syscalls == Some(models));
            }
            if rules[i].names.len() == 0 || !allows {
                return false;
            }
            i = i + 1;
        }
        true
    }

    /// The profile that denies by default and allows `names` on
    /// `architectures`.
    pub fn allow_list(names: Vec<String>, architectures: Vec<Arch>) -> (profile: SeccompProfile)
        ensures
            profile@ == allow_list(texts(names@), architectures@),
    {
        let rule = SyscallRule::allowing(names);
        let mut rules: Vec<SyscallRule> = Vec::new();
        rules.push(rule);
        proof {
            assert(rule_models(rules@) =~= seq![allow_rule(texts(names@))]);
        }
        SeccompProfile {
            default_action: Action::Errno,
            default_errno_ret: None,
            architectures: Some(architectures),
            flags: None,
            listener_path: None,
            listener_metadata: None,
            syscalls: Some(rules),
        }
    }
}

impl Default for SeccompProfile {
    /// The empty profile.
    fn default() -> (profile: SeccompProfile)
        ensures
            profile@ == empty_profile(),
    {
        SeccompProfile {
            default_action: Action::Allow,
            default_errno_ret: None,
            architectures: None,
            flags: None,
            listener_path: None,
            listener_metadata: None,
            syscalls: None,
        }
    }
}

} // verus!
