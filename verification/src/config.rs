//! The configuration of the server.

use vstd::prelude::*;

use crate::duplicate::Duplicate;
use crate::error;
use crate::error::Error;
use crate::text;

verus! {

/// What the command line says.
#[derive(Debug)]
pub struct Cli {
    /// Token for the journey planner.
    pub api_token: Option<String>,
    /// Variable that may hold it.
    pub api_token_env: String,
    /// Token for the live feed.
    pub gtfs_rt_token: Option<String>,
    /// Variable that may hold it.
    pub gtfs_rt_token_env: String,
    /// Where the journey planner is.
    pub ojp_endpoint: String,
    /// Where the live feed is.
    pub gtfs_rt_endpoint: String,
    /// Where train formations are.
    pub formation_endpoint: String,
    /// Token for train formations.
    pub formation_token: Option<String>,
    /// Variable that may hold it.
    pub formation_token_env: String,
    /// Name of the server.
    pub server_name: String,
    /// Seconds for which answers are kept.
    pub cache_ttl_seconds: u64,
}

/// The view of a [`Cli`].
#[verifier::ext_equal]
pub struct CliView {
    pub api_token: Option<Seq<char>>,
    pub api_token_env: Seq<char>,
    pub gtfs_rt_token: Option<Seq<char>>,
    pub gtfs_rt_token_env: Seq<char>,
    pub ojp_endpoint: Seq<char>,
    pub gtfs_rt_endpoint: Seq<char>,
    pub formation_endpoint: Seq<char>,
    pub formation_token: Option<Seq<char>>,
    pub formation_token_env: Seq<char>,
    pub server_name: Seq<char>,
    pub cache_ttl_seconds: u64,
}

impl DeepView for Cli {
    type V = CliView;

    open spec fn deep_view(&self) -> CliView {
        CliView {
            api_token: self.api_token.deep_view(),
            api_token_env: self.api_token_env.deep_view(),
            gtfs_rt_token: self.gtfs_rt_token.deep_view(),
            gtfs_rt_token_env: self.gtfs_rt_token_env.deep_view(),
            ojp_endpoint: self.ojp_endpoint.deep_view(),
            gtfs_rt_endpoint: self.gtfs_rt_endpoint.deep_view(),
            formation_endpoint: self.formation_endpoint.deep_view(),
            formation_token: self.formation_token.deep_view(),
            formation_token_env: self.formation_token_env.deep_view(),
            server_name: self.server_name.deep_view(),
            cache_ttl_seconds: self.cache_ttl_seconds.deep_view(),
        }
    }
}

impl Duplicate for Cli {
    fn duplicate(&self) -> (r: Self) {
        Cli {
            api_token: self.api_token.duplicate(),
            api_token_env: self.api_token_env.duplicate(),
            gtfs_rt_token: self.gtfs_rt_token.duplicate(),
            gtfs_rt_token_env: self.gtfs_rt_token_env.duplicate(),
            ojp_endpoint: self.ojp_endpoint.duplicate(),
            gtfs_rt_endpoint: self.gtfs_rt_endpoint.duplicate(),
            formation_endpoint: self.formation_endpoint.duplicate(),
            formation_token: self.formation_token.duplicate(),
            formation_token_env: self.formation_token_env.duplicate(),
            server_name: self.server_name.duplicate(),
            cache_ttl_seconds: self.cache_ttl_seconds,
        }
    }
}

impl Clone for Cli {
    fn clone(&self) -> (r: Self)
        ensures
            r.deep_view() == self.deep_view(),
    {
        self.duplicate()
    }
}

/// The values of the variables that may hold tokens.
#[derive(Debug)]
pub struct TokenVariables {
    /// For the journey planner.
    pub api_token: Option<String>,
    /// For the live feed.
    pub gtfs_rt_token: Option<String>,
    /// For train formations.
    pub formation_token: Option<String>,
}

/// The view of a [`TokenVariables`].
#[verifier::ext_equal]
pub struct TokenVariablesView {
    pub api_token: Option<Seq<char>>,
    pub gtfs_rt_token: Option<Seq<char>>,
    pub formation_token: Option<Seq<char>>,
}

impl DeepView for TokenVariables {
    type V = TokenVariablesView;

    open spec fn deep_view(&self) -> TokenVariablesView {
        TokenVariablesView {
            api_token: self.api_token.deep_view(),
            gtfs_rt_token: self.gtfs_rt_token.deep_view(),
            formation_token: self.formation_token.deep_view(),
        }
    }
}

/// The configuration of the server.
#[derive(Debug)]
pub struct Config {
    /// Where the journey planner is.
    pub ojp_endpoint: String,
    /// Where the live feed is.
    pub gtfs_rt_endpoint: String,
    /// Where train formations are.
    pub formation_endpoint: String,
    /// Token for the journey planner.
    pub api_token: String,
    /// Token for the live feed.
    pub gtfs_rt_token: String,
    /// Token for train formations.
    pub formation_token: String,
    /// Name of the server.
    pub server_name: String,
    /// Seconds for which answers are kept.
    pub cache_ttl_seconds: u64,
}

/// The view of a [`Config`].
#[verifier::ext_equal]
pub struct ConfigView {
    pub ojp_endpoint: Seq<char>,
    pub gtfs_rt_endpoint: Seq<char>,
    pub formation_endpoint: Seq<char>,
    pub api_token: Seq<char>,
    pub gtfs_rt_token: Seq<char>,
    pub formation_token: Seq<char>,
    pub server_name: Seq<char>,
    pub cache_ttl_seconds: u64,
}

impl DeepView for Config {
    type V = ConfigView;

    open spec fn deep_view(&self) -> ConfigView {
        ConfigView {
            ojp_endpoint: self.ojp_endpoint.deep_view(),
            gtfs_rt_endpoint: self.gtfs_rt_endpoint.deep_view(),
            formation_endpoint: self.formation_endpoint.deep_view(),
            api_token: self.api_token.deep_view(),
            gtfs_rt_token: self.gtfs_rt_token.deep_view(),
            formation_token: self.formation_token.deep_view(),
            server_name: self.server_name.deep_view(),
            cache_ttl_seconds: self.cache_ttl_seconds.deep_view(),
        }
    }
}

impl Duplicate for Config {
    fn duplicate(&self) -> (r: Self) {
        Config {
            ojp_endpoint: self.ojp_endpoint.duplicate(),
            gtfs_rt_endpoint: self.gtfs_rt_endpoint.duplicate(),
            formation_endpoint: self.formation_endpoint.duplicate(),
            api_token: self.api_token.duplicate(),
            gtfs_rt_token: self.gtfs_rt_token.duplicate(),
            formation_token: self.formation_token.duplicate(),
            server_name: self.server_name.duplicate(),
            cache_ttl_seconds: self.cache_ttl_seconds,
        }
    }
}

impl Clone for Config {
    fn clone(&self) -> (r: Self)
        ensures
            r.deep_view() == self.deep_view(),
    {
        self.duplicate()
    }
}

/// The message for a token that is given nowhere.
pub open spec fn missing_token(what: Seq<char>, variable: Seq<char>, flag: Seq<char>) -> Seq<char> {
    "missing "@ + what + " token: set "@ + variable + " or pass "@ + flag
        + " (Codex MCP stdio: whitelist this env via mcp_servers.<id>.env_vars)"@
}

/// The message for a blank token.
pub open spec fn blank_token(what: Seq<char>) -> Seq<char> {
    what + " token must not be empty"@
}

/// The token from the command line, or else from a variable. It must not be blank.
pub open spec fn token_from(
    given: Option<Seq<char>>,
    variable: (Seq<char>, Option<Seq<char>>),
    what: Seq<char>,
    flag: Seq<char>,
) -> Result<Seq<char>, Seq<char>> {
    let found = match given {
        Some(token) => Some(token),
        None => variable.1,
    };
    match found {
        Some(token) => if text::trimmed(token).len() == 0 {
            Err(blank_token(what))
        } else {
            Ok(token)
        },
        None => Err(missing_token(what, variable.0, flag)),
    }
}

/// The token from the command line, or else from a variable.
fn find_token(
    given: Option<String>,
    name: &str,
    value: Option<String>,
    what: &str,
    flag: &str,
) -> (r: Result<String, Error>)
    ensures
        error::outcome(r) == token_from(
            given.deep_view(),
            (name@, value.deep_view()),
            what@,
            flag@,
        ),
{
    let found = match given {
        Some(token) => Some(token),
        None => value,
    };
    match found {
        Some(token) => {
            let t = text::trim(token.as_str());
            if t.as_str().is_empty() {
                let mut message = what.to_owned();
                message.append(" token must not be empty");
                Err(error::failure(message))
            } else {
                Ok(token)
            }
        },
        None => {
            let mut message = "missing ".to_owned();
            message.append(what);
            message.append(" token: set ");
            message.append(name);
            message.append(" or pass ");
            message.append(flag);
            message.append(
                " (Codex MCP stdio: whitelist this env via mcp_servers.<id>.env_vars)",
            );
            Err(error::failure(message))
        },
    }
}

/// The configuration that a command line and the variables it names give. The first
/// fault is reported.
pub open spec fn configuration(cli: CliView, variables: TokenVariablesView) -> Result<
    ConfigView,
    Seq<char>,
> {
    let api = token_from(
        cli.api_token,
        (cli.api_token_env, variables.api_token),
        "OJP"@,
        "--api-token"@,
    );
    let gtfs_rt = token_from(
        cli.gtfs_rt_token,
        (cli.gtfs_rt_token_env, variables.gtfs_rt_token),
        "GTFS-RT"@,
        "--gtfs-rt-token"@,
    );
    let formation = token_from(
        cli.formation_token,
        (cli.formation_token_env, variables.formation_token),
        "Train Formation"@,
        "--formation-token"@,
    );
    if cli.cache_ttl_seconds == 0 {
        Err("cache ttl seconds must be greater than 0"@)
    } else if api is Err {
        Err(api->Err_0)
    } else if gtfs_rt is Err {
        Err(gtfs_rt->Err_0)
    } else if formation is Err {
        Err(formation->Err_0)
    } else {
        Ok(
            ConfigView {
                ojp_endpoint: cli.ojp_endpoint,
                gtfs_rt_endpoint: cli.gtfs_rt_endpoint,
                formation_endpoint: cli.formation_endpoint,
                api_token: api->Ok_0,
                gtfs_rt_token: gtfs_rt->Ok_0,
                formation_token: formation->Ok_0,
                server_name: cli.server_name,
                cache_ttl_seconds: cli.cache_ttl_seconds,
            },
        )
    }
}

impl Config {
    /// The configuration that a command line and the variables it names give.
    pub fn from_cli(cli: Cli, variables: TokenVariables) -> (r: Result<Config, Error>)
        ensures
            error::outcome(r) == configuration(cli.deep_view(), variables.deep_view()),
    {
        if cli.cache_ttl_seconds == 0 {
            return Err(error::failure("cache ttl seconds must be greater than 0".to_owned()));
        }
        let api_token = match find_token(
            cli.api_token,
            cli.api_token_env.as_str(),
            variables.api_token,
            "OJP",
            "--api-token",
        ) {
            Ok(token) => token,
            Err(e) => return Err(e),
        };
        let gtfs_rt_token = match find_token(
            cli.gtfs_rt_token,
            cli.gtfs_rt_token_env.as_str(),
            variables.gtfs_rt_token,
            "GTFS-RT",
            "--gtfs-rt-token",
        ) {
            Ok(token) => token,
            Err(e) => return Err(e),
        };
        let formation_token = match find_token(
            cli.formation_token,
            cli.formation_token_env.as_str(),
            variables.formation_token,
            "Train Formation",
            "--formation-token",
        ) {
            Ok(token) => token,
            Err(e) => return Err(e),
        };
        Ok(
            Config {
                ojp_endpoint: cli.ojp_endpoint,
                gtfs_rt_endpoint: cli.gtfs_rt_endpoint,
                formation_endpoint: cli.formation_endpoint,
                api_token,
                gtfs_rt_token,
                formation_token,
                server_name: cli.server_name,
                cache_ttl_seconds: cli.cache_ttl_seconds,
            },
        )
    }
}

/// A configuration has tokens that are not blank and keeps answers for some time.
pub proof fn law_configuration_is_usable(cli: CliView, variables: TokenVariablesView)
    ensures
        configuration(cli, variables) matches Ok(config) ==> {
            &&& config.cache_ttl_seconds > 0
            &&& text::trimmed(config.api_token).len() > 0
            &&& text::trimmed(config.gtfs_rt_token).len() > 0
            &&& text::trimmed(config.formation_token).len() > 0
        },
{
}

/// A token on the command line makes its variable irrelevant.
pub proof fn law_command_line_wins(
    cli: CliView,
    some: TokenVariablesView,
    others: TokenVariablesView,
)
    requires
        cli.api_token is None ==> some.api_token == others.api_token,
        cli.gtfs_rt_token is None ==> some.gtfs_rt_token == others.gtfs_rt_token,
        cli.formation_token is None ==> some.formation_token == others.formation_token,
    ensures
        configuration(cli, some) == configuration(cli, others),
{
}

/// Without one of the tokens there is no configuration. Of a missing token for the journey
/// planner the message tells where to set it.
pub proof fn law_missing_token_is_reported(cli: CliView, variables: TokenVariablesView)
    requires
        ({
            ||| cli.api_token is None && variables.api_token is None
            ||| cli.gtfs_rt_token is None && variables.gtfs_rt_token is None
            ||| cli.formation_token is None && variables.formation_token is None
        }),
    ensures
        configuration(cli, variables) is Err,
        cli.cache_ttl_seconds > 0 && cli.api_token is None && variables.api_token is None
            ==> configuration(cli, variables) == Err::<ConfigView, _>(
            missing_token("OJP"@, cli.api_token_env, "--api-token"@),
        ),
{
}

/// A token is the one on the command line, or else the one in its variable, as it is; a
/// blank one is refused, and so is none.
pub proof fn law_tokens_are_as_given(
    token: Seq<char>,
    name: Seq<char>,
    value: Seq<char>,
    what: Seq<char>,
    flag: Seq<char>,
)
    ensures
        text::trimmed(token).len() > 0 ==> token_from(Some(token), (name, Some(value)), what, flag)
            == Ok::<Seq<char>, Seq<char>>(token),
        text::trimmed(value).len() > 0 ==> token_from(None, (name, Some(value)), what, flag)
            == Ok::<Seq<char>, Seq<char>>(value),
        text::trimmed(token).len() == 0 ==> token_from(Some(token), (name, Some(value)), what, flag)
            == Err::<Seq<char>, Seq<char>>(what + " token must not be empty"@),
        token_from(None, (name, None), what, flag) is Err,
        text::starts(
            token_from(None, (name, None), what, flag)->Err_0,
            "missing "@ + what + " token: set "@ + name + " or pass "@ + flag,
        ),
{
    let begun = "missing "@ + what + " token: set "@ + name + " or pass "@ + flag;
    let told = missing_token(what, name, flag);
    assert(told.subrange(0, begun.len() as int) =~= begun);
}

/// A command line with all tokens and a lifetime is a configuration with just these and with
/// its endpoints and its name.
pub proof fn law_configuration_is_as_given(
    cli: CliView,
    variables: TokenVariablesView,
    api: Seq<char>,
    gtfs_rt: Seq<char>,
    formation: Seq<char>,
)
    requires
        cli.api_token == Some(api),
        cli.gtfs_rt_token == Some(gtfs_rt),
        cli.formation_token == Some(formation),
        text::trimmed(api).len() > 0,
        text::trimmed(gtfs_rt).len() > 0,
        text::trimmed(formation).len() > 0,
    ensures
        cli.cache_ttl_seconds == 0 ==> configuration(cli, variables) is Err,
        cli.cache_ttl_seconds > 0 ==> (configuration(cli, variables) matches Ok(c) && {
            &&& c.api_token == api
            &&& c.gtfs_rt_token == gtfs_rt
            &&& c.formation_token == formation
            &&& c.ojp_endpoint == cli.ojp_endpoint
            &&& c.gtfs_rt_endpoint == cli.gtfs_rt_endpoint
            &&& c.formation_endpoint == cli.formation_endpoint
            &&& c.server_name == cli.server_name
            &&& c.cache_ttl_seconds == cli.cache_ttl_seconds
        }),
{
}

/// Each token has a variable of its own.
pub proof fn law_variables_stand_in(
    cli: CliView,
    variables: TokenVariablesView,
    api: Seq<char>,
    gtfs_rt: Seq<char>,
    formation: Seq<char>,
)
    requires
        cli.cache_ttl_seconds > 0,
        cli.api_token is None && variables.api_token == Some(api),
        cli.gtfs_rt_token is None && variables.gtfs_rt_token == Some(gtfs_rt),
        cli.formation_token is None && variables.formation_token == Some(formation),
        text::trimmed(api).len() > 0,
        text::trimmed(gtfs_rt).len() > 0,
        text::trimmed(formation).len() > 0,
    ensures
        configuration(cli, variables) matches Ok(c) && c.api_token == api && c.gtfs_rt_token
            == gtfs_rt && c.formation_token == formation,
{
}

/// A token that is missing or blank is reported under its own name, with its own variable and
/// its own flag; the first fault is the one that is reported.
pub proof fn law_each_token_is_reported(cli: CliView, variables: TokenVariablesView)
    requires
        cli.cache_ttl_seconds > 0,
        cli.api_token is Some && text::trimmed(cli.api_token->0).len() > 0,
    ensures
        ({
            let r = configuration(cli, variables);
            let none = cli.gtfs_rt_token is None && variables.gtfs_rt_token is None;
            let given = cli.gtfs_rt_token is Some && text::trimmed(cli.gtfs_rt_token->0).len() > 0;
            let advice =
                " (Codex MCP stdio: whitelist this env via mcp_servers.<id>.env_vars)"@;
            &&& none ==> r == Err::<ConfigView, _>(
                "missing "@ + "GTFS-RT"@ + " token: set "@ + cli.gtfs_rt_token_env + " or pass "@
                    + "--gtfs-rt-token"@ + advice,
            )
            &&& cli.gtfs_rt_token is Some && !given ==> r == Err::<ConfigView, _>(
                "GTFS-RT"@ + " token must not be empty"@,
            )
            &&& given && cli.formation_token is None && variables.formation_token is None ==> r
                == Err::<ConfigView, _>(
                "missing "@ + "Train Formation"@ + " token: set "@ + cli.formation_token_env
                    + " or pass "@ + "--formation-token"@ + advice,
            )
            &&& given && cli.formation_token is Some && text::trimmed(
                cli.formation_token->0,
            ).len() == 0 ==> r == Err::<ConfigView, _>(
                "Train Formation"@ + " token must not be empty"@,
            )
        }),
{
}

/// A missing token for the journey planner and a lifetime of nothing are told in words.
pub proof fn law_first_fault_is_told(cli: CliView, variables: TokenVariablesView)
    requires
        cli.api_token is None,
        variables.api_token is None,
    ensures
        cli.cache_ttl_seconds == 0 ==> configuration(cli, variables) == Err::<ConfigView, _>(
            "cache ttl seconds must be greater than 0"@,
        ),
        cli.cache_ttl_seconds > 0 ==> configuration(cli, variables) == Err::<ConfigView, _>(
            "missing "@ + "OJP"@ + " token: set "@ + cli.api_token_env + " or pass "@
                + "--api-token"@
                + " (Codex MCP stdio: whitelist this env via mcp_servers.<id>.env_vars)"@,
        ),
{
}

} // verus!
