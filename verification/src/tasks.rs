//! The workspace's chores: which commands a chore runs, in which order.
use vstd::prelude::*;

verus! {

/// A chore.
#[derive(Debug, Clone, Copy, PartialEq, Eq, Structural)]
pub enum Task {
    /// Formatting, lints, tests and, unless it is left out, the check of dependencies.
    Check { no_deny: bool },
    /// Formatting, or only a look at it.
    Fmt { check: bool },
    Clippy,
    /// The tests, with the faster runner where there is one.
    Test,
    Deny,
    HakariGen,
}

/// The command that tells whether the faster test runner is there.
pub const PROBE: &'static str = "cargo nextest --version";

pub const FMT: &'static str = "cargo fmt --all";

pub const FMT_CHECK: &'static str = "cargo fmt --all -- --check";

pub const CLIPPY: &'static str =
    "cargo clippy --workspace --all-targets --no-default-features -- -D warnings";

pub const NEXTEST: &'static str = "cargo nextest run --workspace --no-default-features";

pub const TEST: &'static str = "cargo test --workspace --no-default-features";

pub const DENY: &'static str = "cargo deny check";

pub const HAKARI_GENERATE: &'static str = "cargo hakari generate";

pub const HAKARI_MANAGE: &'static str = "cargo hakari manage-deps --yes";

pub const HAKARI_VERIFY: &'static str = "cargo hakari verify";

/// The commands of a chore, in order. The chore ends with the first that fails.
pub open spec fn commands_of(task: Task, nextest: bool) -> Seq<&'static str> {
    match task {
        Task::Fmt { check } => if check {
            seq![FMT_CHECK]
        } else {
            seq![FMT]
        },
        Task::Clippy => seq![CLIPPY],
        Task::Test => if nextest {
            seq![NEXTEST]
        } else {
            seq![TEST]
        },
        Task::Deny => seq![DENY],
        Task::Check { no_deny } => {
            let most = seq![FMT_CHECK, CLIPPY] + seq![
                if nextest {
                    NEXTEST
                } else {
                    TEST
                },
            ];
            if no_deny {
                most
            } else {
                most + seq![DENY]
            }
        },
        Task::HakariGen => seq![HAKARI_GENERATE, HAKARI_MANAGE, HAKARI_VERIFY],
    }
}

fn test(nextest: bool) -> (r: &'static str)
    ensures
        r == (if nextest {
            NEXTEST
        } else {
            TEST
        }),
{
    if nextest {
        NEXTEST
    } else {
        TEST
    }
}

fn fmt(check: bool) -> (r: &'static str)
    ensures
        r == (if check {
            FMT_CHECK
        } else {
            FMT
        }),
{
    if check {
        FMT_CHECK
    } else {
        FMT
    }
}

/// The commands of a chore, in order; `nextest` tells whether the faster test runner is there.
pub fn commands(task: Task, nextest: bool) -> (r: Vec<&'static str>)
    ensures
        r@ == commands_of(task, nextest),
{
    let mut r: Vec<&'static str> = Vec::new();
    match task {
        Task::Fmt { check } => r.push(fmt(check)),
        Task::Clippy => r.push(CLIPPY),
        Task::Test => r.push(test(nextest)),
        Task::Deny => r.push(DENY),
        Task::Check { no_deny } => {
            r.push(fmt(true));
            r.push(CLIPPY);
            r.push(test(nextest));
            if !no_deny {
                r.push(DENY);
            }
        },
        Task::HakariGen => {
            r.push(HAKARI_GENERATE);
            r.push(HAKARI_MANAGE);
            r.push(HAKARI_VERIFY);
        },
    }
    assert(r@ =~= commands_of(task, nextest));
    r
}

/// A chore that checks everything does what the single chores do, one after the other.
pub proof fn check_does_the_single_chores(nextest: bool)
    ensures
        commands_of(Task::Check { no_deny: true }, nextest) == commands_of(
            Task::Fmt { check: true },
            nextest,
        ) + commands_of(Task::Clippy, nextest) + commands_of(Task::Test, nextest),
        commands_of(Task::Check { no_deny: false }, nextest) == commands_of(
            Task::Check { no_deny: true },
            nextest,
        ) + commands_of(Task::Deny, nextest),
{
    assert(commands_of(Task::Check { no_deny: true }, nextest) =~= commands_of(
        Task::Fmt { check: true },
        nextest,
    ) + commands_of(Task::Clippy, nextest) + commands_of(Task::Test, nextest));
}

/// Each chore runs its own commands: a look at the formatting changes nothing, tests go to the
/// faster runner where there is one, and dependencies are looked at unless that is left out.
pub proof fn chores_run_their_commands(check: bool, no_deny: bool, nextest: bool)
    ensures
        commands_of(Task::Fmt { check: true }, nextest) == seq!["cargo fmt --all -- --check"],
        commands_of(Task::Fmt { check: false }, nextest) == seq!["cargo fmt --all"],
        commands_of(Task::Clippy, nextest)
            == seq!["cargo clippy --workspace --all-targets --no-default-features -- -D warnings"],
        commands_of(Task::Test, true)
            == seq!["cargo nextest run --workspace --no-default-features"],
        commands_of(Task::Test, false) == seq!["cargo test --workspace --no-default-features"],
        commands_of(Task::Deny, nextest) == seq!["cargo deny check"],
        commands_of(Task::HakariGen, nextest) == seq![
            "cargo hakari generate",
            "cargo hakari manage-deps --yes",
            "cargo hakari verify",
        ],
        commands_of(Task::Check { no_deny }, nextest).len() == (if no_deny {
            3int
        } else {
            4
        }),
{
}

} // verus!
