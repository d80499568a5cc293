//! The connection wrapper: construction from credential options, the setup
//! statements it owes the engine, the text-keyed statement cache, and the
//! exclusive-iteration rule.

use crate::cache::StatementCache;
use crate::errors::ReportedError;
use vstd::prelude::*;

verus! {

/// What the host handed over for one required construction option: nothing,
/// a value of some other type, or an actual string.
#[derive(Debug, PartialEq, Eq)]
pub enum ProvidedValue {
    Missing,
    NonString,
    Text(String),
}

/// The three credential strings a connection is constructed from; they
/// configure the engine's remote object-store extension.
#[derive(Debug, PartialEq, Eq)]
pub struct Credentials {
    pub region: String,
    pub access_key_id: String,
    pub secret_access_key: String,
}

/// The error owed when `v` is not the string that the option `key`
/// requires.
pub open spec fn option_error(v: ProvidedValue, key: Seq<char>, e: ReportedError) -> bool {
    &&& v is Missing ==> (e matches ReportedError::MissingOption { key: k } && k@ == key)
    &&& v is NonString ==> (e matches ReportedError::NonStringOption { key: k } && k@ == key)
}

/// Requires the option `key` to have arrived as a string; construction
/// fails with a descriptive, recoverable error otherwise.
pub fn require_string(v: ProvidedValue, key: &str) -> (r: Result<String, ReportedError>)
    ensures
        r is Ok <==> v is Text,
        v matches ProvidedValue::Text(s) ==> (r matches Ok(o) && o@ == s@),
        r matches Err(e) ==> option_error(v, key@, e),
{
    match v {
        ProvidedValue::Text(s) => Ok(s),
        ProvidedValue::Missing => Err(
            ReportedError::MissingOption { key: String::from_str(key) },
        ),
        ProvidedValue::NonString => Err(
            ReportedError::NonStringOption { key: String::from_str(key) },
        ),
    }
}

/// The error owed for a credential set whose first ill-formed option — in
/// the fixed order region, key id, secret — is the one reported.
pub open spec fn credentials_error(
    region: ProvidedValue,
    access_key_id: ProvidedValue,
    secret_access_key: ProvidedValue,
    e: ReportedError,
) -> bool {
    if !(region is Text) {
        option_error(region, "s3_region"@, e)
    } else if !(access_key_id is Text) {
        option_error(access_key_id, "s3_access_key_id"@, e)
    } else {
        option_error(secret_access_key, "s3_secret_access_key"@, e)
    }
}

/// Validates the three required construction options, in the fixed order
/// the construction reads them.
pub fn validate_credentials(
    region: ProvidedValue,
    access_key_id: ProvidedValue,
    secret_access_key: ProvidedValue,
) -> (r: Result<Credentials, ReportedError>)
    ensures
        r is Ok <==> (region is Text && access_key_id is Text && secret_access_key is Text),
        r matches Ok(c) ==> {
            &&& region matches ProvidedValue::Text(s) && c.region@ == s@
            &&& access_key_id matches ProvidedValue::Text(s) && c.access_key_id@ == s@
            &&& secret_access_key matches ProvidedValue::Text(s) && c.secret_access_key@ == s@
        },
        r matches Err(e) ==> credentials_error(region, access_key_id, secret_access_key, e),
{
    let region = match require_string(region, "s3_region") {
        Ok(s) => s,
        Err(e) => {
            return Err(e);
        },
    };
    let access_key_id = match require_string(access_key_id, "s3_access_key_id") {
        Ok(s) => s,
        Err(e) => {
            return Err(e);
        },
    };
    let secret_access_key = match require_string(secret_access_key, "s3_secret_access_key") {
        Ok(s) => s,
        Err(e) => {
            return Err(e);
        },
    };
    Ok(Credentials { region, access_key_id, secret_access_key })
}

/// The batch of extension installs a fresh engine session is owed.
pub open spec fn spec_install_sql() -> Seq<char> {
    "INSTALL aws; INSTALL httpfs;"@
}

/// The secret-registration statement built from the credentials. The
/// credential strings are spliced in as literals: the system only accepts
/// fully rendered SQL text, a documented risk, not a hidden one.
pub open spec fn spec_secret_sql(c: Credentials) -> Seq<char> {
    "CREATE SECRET aws_bucket_secrets (TYPE S3, KEY_ID '"@ + c.access_key_id@ + "', SECRET '"@
        + c.secret_access_key@ + "', REGION '"@ + c.region@ + "')"@
}

/// The two setup statements a freshly opened engine session must run, in
/// order: extension installs, then secret registration. Either failing is a
/// recoverable error, translated by [`setup_failure`].
#[derive(Debug)]
pub struct SetupPlan {
    pub install_sql: String,
    pub secret_sql: String,
}

/// Builds the setup statements for a validated credential set.
pub fn build_setup_plan(c: &Credentials) -> (p: SetupPlan)
    ensures
        p.install_sql@ == spec_install_sql(),
        p.secret_sql@ == spec_secret_sql(*c),
{
    let install_sql = String::from_str("INSTALL aws; INSTALL httpfs;");
    let mut secret_sql = String::from_str("CREATE SECRET aws_bucket_secrets (TYPE S3, KEY_ID '");
    secret_sql.append(c.access_key_id.as_str());
    secret_sql.append("', SECRET '");
    secret_sql.append(c.secret_access_key.as_str());
    secret_sql.append("', REGION '");
    secret_sql.append(c.region.as_str());
    secret_sql.append("')");
    SetupPlan { install_sql, secret_sql }
}

/// Which setup step an engine failure interrupted.
#[derive(Clone, Copy, PartialEq, Eq, Structural, Debug)]
pub enum SetupStage {
    OpenEngine,
    InstallExtensions,
    RegisterSecret,
}

/// Translates a failure of the named setup step into the reported error
/// shape; no setup failure aborts the process.
pub fn setup_failure(stage: SetupStage, cause: String) -> (e: ReportedError)
    ensures
        stage is OpenEngine ==> (e matches ReportedError::EngineOpen { cause: c } && c@ == cause@),
        stage is InstallExtensions ==> (e matches ReportedError::ExtensionInstall { cause: c }
            && c@ == cause@),
        stage is RegisterSecret ==> (e matches ReportedError::SecretRegistration { cause: c } && c@
            == cause@),
{
    match stage {
        SetupStage::OpenEngine => ReportedError::EngineOpen { cause },
        SetupStage::InstallExtensions => ReportedError::ExtensionInstall { cause },
        SetupStage::RegisterSecret => ReportedError::SecretRegistration { cause },
    }
}

/// Translates the engine's answer to a single-statement execution: the
/// affected row count on success, the reported error shape on failure.
pub fn execute_outcome(outcome: Result<usize, String>) -> (r: Result<usize, ReportedError>)
    ensures
        outcome matches Ok(n) ==> (r matches Ok(m) && m == n),
        outcome matches Err(c) ==> (r matches Err(e) && e matches ReportedError::QueryExecution {
            cause,
        } && cause@ == c@),
{
    match outcome {
        Ok(n) => Ok(n),
        Err(cause) => Err(ReportedError::QueryExecution { cause }),
    }
}

/// The decision core of one engine connection: the statement cache, whether
/// a row iteration is live, and the cached once-per-connection decision
/// whether the host offers indifferent key access.
#[derive(Debug)]
pub struct Connection {
    pub cache: StatementCache,
    pub iterating: bool,
    pub indifferent_access: bool,
}

impl Connection {
    pub open spec fn wf(self) -> bool {
        self.cache@.wf()
    }

    /// Validates the construction options and yields the fresh connection
    /// state together with the setup statements the embedding must run on
    /// the engine session it opens.
    pub fn open(
        region: ProvidedValue,
        access_key_id: ProvidedValue,
        secret_access_key: ProvidedValue,
        indifferent_access: bool,
    ) -> (r: Result<(Connection, SetupPlan), ReportedError>)
        ensures
            r is Ok <==> (region is Text && access_key_id is Text && secret_access_key is Text),
            r matches Ok(p) ==> {
                &&& p.0.wf()
                &&& !p.0.iterating
                &&& p.0.indifferent_access == indifferent_access
                &&& p.0.cache@.compilations() == 0
                &&& p.1.install_sql@ == spec_install_sql()
                &&& region matches ProvidedValue::Text(rg)
                &&& access_key_id matches ProvidedValue::Text(ak)
                &&& secret_access_key matches ProvidedValue::Text(sk)
                &&& p.1.secret_sql@ == spec_secret_sql(
                    Credentials { region: rg, access_key_id: ak, secret_access_key: sk },
                )
            },
            r matches Err(e) ==> credentials_error(region, access_key_id, secret_access_key, e),
    {
        let credentials = match validate_credentials(region, access_key_id, secret_access_key) {
            Ok(c) => c,
            Err(e) => {
                return Err(e);
            },
        };
        let plan = build_setup_plan(&credentials);
        let connection = Connection {
            cache: StatementCache::new(),
            iterating: false,
            indifferent_access,
        };
        Ok((connection, plan))
    }

    /// Claims the connection for one row iteration and fetches the compiled
    /// statement for `sql` from the cache. A second iteration started while
    /// one is live fails fast, changing nothing, rather than corrupting
    /// state.
    pub fn start_query(&mut self, sql: &String) -> (r: Result<(usize, bool), ReportedError>)
        requires
            old(self).wf(),
        ensures
            final(self).wf(),
            old(self).iterating ==> {
                &&& r matches Err(e)
                &&& e matches ReportedError::QueryExecution { cause } && cause@
                    == "Another row iteration is still active"@
                &&& *final(self) == *old(self)
            },
            !old(self).iterating ==> {
                &&& r matches Ok(p)
                &&& (final(self).cache@, p.0 as int, p.1) == old(self).cache@.fetch_result(sql@)
                &&& final(self).iterating
                &&& final(self).indifferent_access == old(self).indifferent_access
            },
    {
        if self.iterating {
            return Err(
                ReportedError::QueryExecution {
                    cause: String::from_str("Another row iteration is still active"),
                },
            );
        }
        let slot = self.cache.fetch(sql);
        self.iterating = true;
        Ok(slot)
    }

    /// Releases the connection when a row iteration is over; nothing else
    /// changes.
    pub fn finish_query(&mut self)
        ensures
            !final(self).iterating,
            final(self).cache == old(self).cache,
            final(self).indifferent_access == old(self).indifferent_access,
    {
        self.iterating = false;
    }
}

} // verus!
