//! The values that commands and prompts fall back on.

use vstd::prelude::*;

verus! {

pub const DEFAULT_BRANCH_PREFIX: &'static str = "feature";

pub const DEFAULT_GITHUB_BASE_URL: &'static str = "https://github.com";

pub const DEFAULT_REPOSITORY_OWNER: &'static str = "my-org";

pub const DEFAULT_CODE_DIR_BASENAME: &'static str = "code";

pub const DEFAULT_TICKETS_DIR_BASENAME: &'static str = "tickets";

pub const DEFAULT_CODE_DIR_FALLBACK: &'static str = "./code";

pub const DEFAULT_TICKETS_DIR_FALLBACK: &'static str = "./tickets";

pub const DEFAULT_RELEASE_OWNER: &'static str = "armaan-v924";

pub const DEFAULT_RELEASE_REPO: &'static str = "worktree-manager";

} // verus!
