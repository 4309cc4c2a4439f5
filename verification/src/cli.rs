//! Validation of the command-line options: which strategy applies, which
//! flag combinations conflict, and the resulting session options.

use vstd::prelude::*;
use vstd::string::*;
use crate::model::{StrategyArg, StrategyId, ThemeMode};
use crate::syntax::str_eq_text;

verus! {

/// A configuration conflict, detected before any interface is shown.
#[derive(Clone, Copy, Debug, PartialEq, Eq, Structural)]
pub enum ConfigError {
    RangeRequiresBase,
    BaseRequiresRangeStrategy,
    UncommittedRequiresDefaultHead,
}

impl ConfigError {
    /// The single-line message reported for this conflict.
    pub fn message(&self) -> (r: String)
        ensures
            r@ == (match *self {
                ConfigError::RangeRequiresBase => "--strategy range requires --base <git-ref>"@,
                ConfigError::BaseRequiresRangeStrategy =>
                    "--base can only be used with --strategy range"@,
                ConfigError::UncommittedRequiresDefaultHead =>
                    "--include-uncommitted currently requires --head HEAD"@,
            }),
    {
        match self {
            ConfigError::RangeRequiresBase => "--strategy range requires --base <git-ref>"
                .to_owned(),
            ConfigError::BaseRequiresRangeStrategy =>
                "--base can only be used with --strategy range".to_owned(),
            ConfigError::UncommittedRequiresDefaultHead =>
                "--include-uncommitted currently requires --head HEAD".to_owned(),
        }
    }
}

/// The validated session options.
#[derive(Clone, Debug)]
pub struct CliOptions {
    pub strategy_id: StrategyId,
    pub base_ref: Option<String>,
    pub head_ref: String,
    pub include_uncommitted: bool,
    pub theme_mode: ThemeMode,
}

/// The strategy an argument names.
pub open spec fn spec_strategy_of_arg(arg: StrategyArg) -> StrategyId {
    match arg {
        StrategyArg::UpstreamAhead => StrategyId::UpstreamAhead,
        StrategyArg::Range => StrategyId::Range,
    }
}

/// The strategy that applies: the explicit choice, else range when a
/// base is given, else upstream-ahead.
pub open spec fn spec_effective_strategy(
    strategy: Option<StrategyArg>,
    base_given: bool,
) -> StrategyId {
    match strategy {
        Some(arg) => spec_strategy_of_arg(arg),
        None => if base_given {
            StrategyId::Range
        } else {
            StrategyId::UpstreamAhead
        },
    }
}

impl CliOptions {
    /// Validates the raw command-line choices. The range strategy needs a
    /// base; an explicit upstream-ahead strategy forbids one; including
    /// uncommitted changes requires the default head. Exactly the inputs
    /// free of those three conflicts yield options.
    pub fn from_cli_parts(
        strategy: Option<StrategyArg>,
        base: Option<String>,
        head: String,
        include_uncommitted: bool,
        theme: ThemeMode,
    ) -> (r: Result<CliOptions, ConfigError>)
        ensures
            ({
                let strategy_id = spec_effective_strategy(strategy, base is Some);
                match r {
                    Ok(options) => {
                        &&& !(strategy_id == StrategyId::Range && base is None)
                        &&& !(strategy is Some && strategy_id == StrategyId::UpstreamAhead && base
                            is Some)
                        &&& !(include_uncommitted && head@ != "HEAD"@)
                        &&& options.strategy_id == strategy_id
                        &&& options.base_ref == base
                        &&& options.head_ref == head
                        &&& options.include_uncommitted == include_uncommitted
                        &&& options.theme_mode == theme
                    },
                    Err(e) => {
                        &&& e == ConfigError::RangeRequiresBase <==> (strategy_id
                            == StrategyId::Range && base is None)
                        &&& e == ConfigError::BaseRequiresRangeStrategy <==> (!(strategy_id
                            == StrategyId::Range && base is None) && strategy is Some
                            && strategy_id == StrategyId::UpstreamAhead && base is Some)
                        &&& e == ConfigError::UncommittedRequiresDefaultHead <==> (!(strategy_id
                            == StrategyId::Range && base is None) && !(strategy is Some
                            && strategy_id == StrategyId::UpstreamAhead && base is Some)
                            && include_uncommitted && head@ != "HEAD"@)
                    },
                }
            }),
    {
        let strategy_explicitly_set = match strategy {
            Some(_) => true,
            None => false,
        };
        let strategy_id = match strategy {
            Some(StrategyArg::UpstreamAhead) => StrategyId::UpstreamAhead,
            Some(StrategyArg::Range) => StrategyId::Range,
            None => {
                match base {
                    Some(_) => StrategyId::Range,
                    None => StrategyId::UpstreamAhead,
                }
            },
        };
        let base_given = match base {
            Some(_) => true,
            None => false,
        };
        if strategy_id == StrategyId::Range && !base_given {
            return Err(ConfigError::RangeRequiresBase);
        }
        if strategy_explicitly_set && strategy_id == StrategyId::UpstreamAhead && base_given {
            return Err(ConfigError::BaseRequiresRangeStrategy);
        }
        if include_uncommitted && !str_eq_text(head.as_str(), "HEAD") {
            return Err(ConfigError::UncommittedRequiresDefaultHead);
        }
        Ok(
            CliOptions {
                strategy_id,
                base_ref: base,
                head_ref: head,
                include_uncommitted,
                theme_mode: theme,
            },
        )
    }
}

} // verus!
