//! What a runner is registered with and where it keeps its files.
use vstd::prelude::*;
use vstd::string::*;

verus! {

pub struct RunnerInfo {
    pub agent_id: i64,
    pub agent_name: String,
    pub pool_id: i64,
    pub server_url: String,
    pub server_url_v2: String,
    pub git_hub_url: String,
    pub work_folder: String,
    pub use_v2_flow: bool,
}

pub struct OAuthCredentials {
    pub scheme: String,
    pub client_id: String,
    pub authorization_url: String,
}

pub struct RsaParameters {
    pub d: String,
    pub dp: String,
    pub dq: String,
    pub exponent: String,
    pub inverse_q: String,
    pub modulus: String,
    pub p: String,
    pub q: String,
}

pub struct RunnerCredentials {
    pub info: RunnerInfo,
    pub oauth: OAuthCredentials,
    pub rsa_params: RsaParameters,
}

/// The directories of a runner.
pub struct ChimeraPaths {
    pub work_dir: String,
    pub tmp_dir: String,
    pub tool_cache_dir: String,
    pub externals_dir: String,
    pub actions_dir: String,
}

} // verus!
