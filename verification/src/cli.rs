//! The elevated helper's command line: `enable --config <path> --ifname
//! <name>`, `disable`, or `run --bin <path>... --env KEY=value...`. The
//! parser decides everything about the arguments; the caller only hands
//! them over.

use vstd::prelude::*;
use crate::launch::{EnvPair, EnvPairModel, env_key_of, env_value_of, allowed_env_key_spec, parse_env_pair};
use crate::text::str_eq;

verus! {

/// One lifecycle request to the elevated helper.
#[derive(Debug)]
pub enum HelperCommand {
    /// Bring the sandbox up from the given tunnel configuration.
    Enable { config: String, ifname: String },
    /// Tear the sandbox down.
    Disable,
    /// Start the given binaries inside the sandbox namespace, with the
    /// screened environment.
    Run { bins: Vec<String>, envs: Vec<EnvPair> },
}

#[verifier::ext_equal]
pub enum HelperCommandModel {
    Enable { config: Seq<char>, ifname: Seq<char> },
    Disable,
    Run { bins: Seq<Seq<char>>, envs: Seq<EnvPairModel> },
}

impl View for HelperCommand {
    type V = HelperCommandModel;

    open spec fn view(&self) -> HelperCommandModel {
        match self {
            HelperCommand::Enable { config, ifname } => HelperCommandModel::Enable {
                config: config@,
                ifname: ifname@,
            },
            HelperCommand::Disable => HelperCommandModel::Disable,
            HelperCommand::Run { bins, envs } => HelperCommandModel::Run {
                bins: bins.deep_view(),
                envs: envs.deep_view(),
            },
        }
    }
}

/// What parsing comes to: a command, or a complaint.
#[verifier::ext_equal]
pub enum ParseOutcome {
    Cmd(HelperCommandModel),
    Fail(Seq<char>),
}

/// The `enable` option scan: later occurrences of an option win, an
/// option at the very end leaves its setting empty, and both settings
/// must be present when the arguments run out.
pub open spec fn scan_enable(
    rest: Seq<Seq<char>>,
    config: Option<Seq<char>>,
    ifname: Option<Seq<char>>,
) -> ParseOutcome
    decreases rest.len(),
{
    if rest.len() == 0 {
        match config {
            None => ParseOutcome::Fail("--config missing"@),
            Some(c) => match ifname {
                None => ParseOutcome::Fail("--ifname missing"@),
                Some(f) => ParseOutcome::Cmd(HelperCommandModel::Enable { config: c, ifname: f }),
            },
        }
    } else if rest[0] == "--config"@ {
        if rest.len() >= 2 {
            scan_enable(rest.skip(2), Some(rest[1]), ifname)
        } else {
            scan_enable(rest.skip(1), None, ifname)
        }
    } else if rest[0] == "--ifname"@ {
        if rest.len() >= 2 {
            scan_enable(rest.skip(2), config, Some(rest[1]))
        } else {
            scan_enable(rest.skip(1), config, None)
        }
    } else {
        ParseOutcome::Fail("unknown argument: "@ + rest[0])
    }
}

/// The `run` option scan: binaries accumulate, environment arguments are
/// screened as `parse_env_pair` does, and at least one binary must be
/// named.
pub open spec fn scan_run(
    rest: Seq<Seq<char>>,
    bins: Seq<Seq<char>>,
    envs: Seq<EnvPairModel>,
) -> ParseOutcome
    decreases rest.len(),
{
    if rest.len() == 0 {
        if bins.len() == 0 {
            ParseOutcome::Fail("--bin missing"@)
        } else {
            ParseOutcome::Cmd(HelperCommandModel::Run { bins, envs })
        }
    } else if rest[0] == "--bin"@ {
        if rest.len() >= 2 {
            scan_run(rest.skip(2), bins.push(rest[1]), envs)
        } else {
            ParseOutcome::Fail("--bin missing value"@)
        }
    } else if rest[0] == "--env"@ {
        if rest.len() < 2 {
            ParseOutcome::Fail("--env missing value"@)
        } else if env_key_of(rest[1]).len() == 0 {
            ParseOutcome::Fail("empty env key"@)
        } else if !allowed_env_key_spec(env_key_of(rest[1])) {
            scan_run(rest.skip(2), bins, envs)
        } else {
            scan_run(
                rest.skip(2),
                bins,
                envs.push(EnvPairModel { key: env_key_of(rest[1]), value: env_value_of(rest[1]) }),
            )
        }
    } else {
        ParseOutcome::Fail("unknown argument: "@ + rest[0])
    }
}

/// What the helper does with its arguments (the program name excluded).
pub open spec fn parse_helper_spec(args: Seq<Seq<char>>) -> ParseOutcome {
    if args.len() == 0 {
        ParseOutcome::Fail("missing command"@)
    } else if args[0] == "enable"@ {
        scan_enable(args.skip(1), None, None)
    } else if args[0] == "disable"@ {
        ParseOutcome::Cmd(HelperCommandModel::Disable)
    } else if args[0] == "run"@ {
        scan_run(args.skip(1), Seq::empty(), Seq::empty())
    } else {
        ParseOutcome::Fail("unknown command: "@ + args[0])
    }
}

/// Parses the helper's arguments, the program name excluded.
pub fn parse_helper_args(args: &Vec<String>) -> (r: Result<HelperCommand, String>)
    ensures
        match r {
            Ok(c) => parse_helper_spec(args.deep_view()) == ParseOutcome::Cmd(c@),
            Err(e) => parse_helper_spec(args.deep_view()) == ParseOutcome::Fail(e@),
        },
{
    let ghost adv = args.deep_view();
    let n = args.len();
    proof {
        assert(adv.len() == n);
        if n > 0 {
            assert(adv[0] =~= args@[0]@);
        }
    }
    if n == 0 {
        return Err(String::from_str("missing command"));
    }
    let cmd = &args[0];
    if str_eq(cmd.as_str(), "enable") {
        let mut config: Option<String> = None;
        let mut ifname: Option<String> = None;
        let mut i: usize = 1;
        proof {
            assert(parse_helper_spec(adv) == scan_enable(adv.skip(1), None, None));
        }
        while i < n
            invariant
                1 <= i <= n == adv.len(),
                adv == args.deep_view(),
                args@.len() == n,
                parse_helper_spec(adv) == scan_enable(
                    adv.skip(i as int),
                    match config {
                        Some(ref c) => Some(c@),
                        None => None,
                    },
                    match ifname {
                        Some(ref f) => Some(f@),
                        None => None,
                    },
                ),
            decreases n - i,
        {
            let ghost rest = adv.skip(i as int);
            proof {
                assert(rest[0] == adv[i as int]);
                assert(adv[i as int] =~= args@[i as int]@);
                assert(rest.skip(1) =~= adv.skip(i + 1));
                if i + 2 <= n {
                    assert(rest.skip(2) =~= adv.skip(i + 2));
                    assert(rest[1] == adv[i + 1]);
                    assert(adv[i + 1] =~= args@[i + 1]@);
                }
            }
            let a = &args[i];
            if str_eq(a.as_str(), "--config") {
                if i + 1 < n {
                    config = Some(args[i + 1].clone());
                    i = i + 2;
                } else {
                    config = None;
                    i = i + 1;
                }
            } else if str_eq(a.as_str(), "--ifname") {
                if i + 1 < n {
                    ifname = Some(args[i + 1].clone());
                    i = i + 2;
                } else {
                    ifname = None;
                    i = i + 1;
                }
            } else {
                return Err(String::from_str("unknown argument: ").concat(a.as_str()));
            }
        }
        proof {
            assert(adv.skip(n as int).len() == 0);
        }
        let config = match config {
            Some(c) => c,
            None => {
                return Err(String::from_str("--config missing"));
            },
        };
        let ifname = match ifname {
            Some(f) => f,
            None => {
                return Err(String::from_str("--ifname missing"));
            },
        };
        Ok(HelperCommand::Enable { config, ifname })
    } else if str_eq(cmd.as_str(), "disable") {
        Ok(HelperCommand::Disable)
    } else if str_eq(cmd.as_str(), "run") {
        let mut bins: Vec<String> = Vec::new();
        let mut envs: Vec<EnvPair> = Vec::new();
        let mut i: usize = 1;
        proof {
            assert(bins.deep_view() =~= Seq::<Seq<char>>::empty());
            assert(envs.deep_view() =~= Seq::<EnvPairModel>::empty());
            assert(parse_helper_spec(adv) == scan_run(adv.skip(1), Seq::empty(), Seq::empty()));
        }
        while i < n
            invariant
                1 <= i <= n == adv.len(),
                adv == args.deep_view(),
                args@.len() == n,
                parse_helper_spec(adv) == scan_run(
                    adv.skip(i as int),
                    bins.deep_view(),
                    envs.deep_view(),
                ),
            decreases n - i,
        {
            let ghost rest = adv.skip(i as int);
            proof {
                assert(rest[0] == adv[i as int]);
                assert(adv[i as int] =~= args@[i as int]@);
                assert(rest.skip(1) =~= adv.skip(i + 1));
                if i + 2 <= n {
                    assert(rest.skip(2) =~= adv.skip(i + 2));
                    assert(rest[1] == adv[i + 1]);
                    assert(adv[i + 1] =~= args@[i + 1]@);
                }
            }
            let a = &args[i];
            if str_eq(a.as_str(), "--bin") {
                if i + 1 < n {
                    let ghost old_bins = bins.deep_view();
                    bins.push(args[i + 1].clone());
                    proof {
                        assert(bins.deep_view() =~~= old_bins.push(adv[i + 1]));
                    }
                    i = i + 2;
                } else {
                    return Err(String::from_str("--bin missing value"));
                }
            } else if str_eq(a.as_str(), "--env") {
                if i + 1 < n {
                    match parse_env_pair(args[i + 1].as_str()) {
                        Err(e) => {
                            return Err(e);
                        },
                        Ok(None) => {
                            i = i + 2;
                        },
                        Ok(Some(p)) => {
                            let ghost old_envs = envs.deep_view();
                            let ghost pm = p@;
                            envs.push(p);
                            proof {
                                reveal_strlit("DISPLAY");
                                reveal_strlit("WAYLAND_DISPLAY");
                                reveal_strlit("XAUTHORITY");
                                reveal_strlit("XDG_RUNTIME_DIR");
                                reveal_strlit("DBUS_SESSION_BUS_ADDRESS");
                                reveal_strlit("HOME");
                                reveal_strlit("USER");
                                reveal_strlit("LOGNAME");
                                reveal_strlit("PATH");
                                assert(env_key_of(adv[i + 1]).len() > 0);
                                assert(envs.deep_view() =~~= old_envs.push(pm));
                                assert(pm =~= EnvPairModel {
                                    key: env_key_of(adv[i + 1]),
                                    value: env_value_of(adv[i + 1]),
                                });
                            }
                            i = i + 2;
                        },
                    }
                } else {
                    return Err(String::from_str("--env missing value"));
                }
            } else {
                return Err(String::from_str("unknown argument: ").concat(a.as_str()));
            }
        }
        proof {
            assert(adv.skip(n as int).len() == 0);
        }
        if bins.len() == 0 {
            proof {
                assert(bins.deep_view().len() == 0);
            }
            return Err(String::from_str("--bin missing"));
        }
        let r = HelperCommand::Run { bins, envs };
        proof {
            assert(parse_helper_spec(adv) == ParseOutcome::Cmd(r@));
        }
        Ok(r)
    } else {
        Err(String::from_str("unknown command: ").concat(cmd.as_str()))
    }
}

} // verus!
