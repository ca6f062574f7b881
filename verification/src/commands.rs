//! The operator's commands: which key gives which command, and what a command
//! does to the trade gate.

use crate::events::TradeSide;
use crate::trade::{
    adjusted_size, gained_entry, kill_switch_text, max_price_text, size_text,
    with_adjusted_max_price, TradeService, TradingState,
};
use vstd::prelude::*;

verus! {

/// Step of a size adjustment: five wholes.
pub const SIZE_STEP: i64 = 500_000_000;

/// Step of a price-cap adjustment: 0.01.
pub const PRICE_STEP: i64 = 1_000_000;

/// What the operator can ask for.
#[derive(Debug, Clone, Copy, PartialEq, Eq, Structural)]
pub enum TuiCommand {
    BuyYes,
    BuyNo,
    ToggleKillSwitch,
    IncrementSize,
    DecrementSize,
    IncrementMaxPriceYes,
    DecrementMaxPriceYes,
    IncrementMaxPriceNo,
    DecrementMaxPriceNo,
    Quit,
}

/// The command of a key, where it has one. Control-C quits, whatever else the
/// key would mean.
pub open spec fn command_of(key: char, control: bool) -> Option<TuiCommand> {
    if control && key == 'c' {
        Some(TuiCommand::Quit)
    } else if key == 'q' {
        Some(TuiCommand::Quit)
    } else if key == 'y' {
        Some(TuiCommand::BuyYes)
    } else if key == 'n' {
        Some(TuiCommand::BuyNo)
    } else if key == 'k' {
        Some(TuiCommand::ToggleKillSwitch)
    } else if key == '+' || key == '=' {
        Some(TuiCommand::IncrementSize)
    } else if key == '-' || key == '_' {
        Some(TuiCommand::DecrementSize)
    } else if key == '[' {
        Some(TuiCommand::DecrementMaxPriceYes)
    } else if key == ']' {
        Some(TuiCommand::IncrementMaxPriceYes)
    } else if key == '{' {
        Some(TuiCommand::DecrementMaxPriceNo)
    } else if key == '}' {
        Some(TuiCommand::IncrementMaxPriceNo)
    } else {
        None
    }
}

/// The side that a command buys, where it is an order.
pub open spec fn order_side(command: TuiCommand) -> Option<TradeSide> {
    match command {
        TuiCommand::BuyYes => Some(TradeSide::Yes),
        TuiCommand::BuyNo => Some(TradeSide::No),
        _ => None,
    }
}

/// The trading state after a command. Orders and quitting leave it as it is.
pub open spec fn state_after(service: &TradeService, command: TuiCommand) -> TradingState {
    let s = service.state();
    match command {
        TuiCommand::ToggleKillSwitch => TradingState {
            kill_switch_active: !s.kill_switch_active,
            ..s
        },
        TuiCommand::IncrementSize => TradingState {
            current_size: adjusted_size(service.limits(), s.current_size, SIZE_STEP) as i64,
            ..s
        },
        TuiCommand::DecrementSize => TradingState {
            current_size: adjusted_size(service.limits(), s.current_size, (-SIZE_STEP) as i64) as i64,
            ..s
        },
        TuiCommand::IncrementMaxPriceYes => with_adjusted_max_price(s, TradeSide::Yes, PRICE_STEP),
        TuiCommand::DecrementMaxPriceYes => with_adjusted_max_price(
            s,
            TradeSide::Yes,
            (-PRICE_STEP) as i64,
        ),
        TuiCommand::IncrementMaxPriceNo => with_adjusted_max_price(s, TradeSide::No, PRICE_STEP),
        TuiCommand::DecrementMaxPriceNo => with_adjusted_max_price(
            s,
            TradeSide::No,
            (-PRICE_STEP) as i64,
        ),
        _ => s,
    }
}

/// The words with which a command is noted in the action log. Orders and
/// quitting are not noted here.
pub open spec fn command_words(service: &TradeService, command: TuiCommand) -> Seq<char> {
    let after = state_after(service, command);
    match command {
        TuiCommand::ToggleKillSwitch => kill_switch_text(after.kill_switch_active),
        TuiCommand::IncrementSize => size_text(SIZE_STEP, after.current_size),
        TuiCommand::DecrementSize => size_text((-SIZE_STEP) as i64, after.current_size),
        TuiCommand::IncrementMaxPriceYes => max_price_text(
            TradeSide::Yes,
            PRICE_STEP,
            after.max_price_yes,
        ),
        TuiCommand::DecrementMaxPriceYes => max_price_text(
            TradeSide::Yes,
            (-PRICE_STEP) as i64,
            after.max_price_yes,
        ),
        TuiCommand::IncrementMaxPriceNo => max_price_text(
            TradeSide::No,
            PRICE_STEP,
            after.max_price_no,
        ),
        TuiCommand::DecrementMaxPriceNo => max_price_text(
            TradeSide::No,
            (-PRICE_STEP) as i64,
            after.max_price_no,
        ),
        _ => Seq::empty(),
    }
}

/// What is left to do after a command has been taken in.
#[derive(Debug, Clone, Copy, PartialEq, Eq, Structural)]
pub enum Followup {
    /// Nothing.
    Nothing,
    /// Place an order on the side.
    Order(TradeSide),
    /// Leave the program.
    Quit,
}

/// What is left to do after a command.
pub open spec fn followup_of(command: TuiCommand) -> Followup {
    match command {
        TuiCommand::BuyYes => Followup::Order(TradeSide::Yes),
        TuiCommand::BuyNo => Followup::Order(TradeSide::No),
        TuiCommand::Quit => Followup::Quit,
        _ => Followup::Nothing,
    }
}

/// The command of a key.
pub fn command_for_key(key: char, control: bool) -> (command: Option<TuiCommand>)
    ensures
        command == command_of(key, control),
{
    if control && key == 'c' {
        Some(TuiCommand::Quit)
    } else if key == 'q' {
        Some(TuiCommand::Quit)
    } else if key == 'y' {
        Some(TuiCommand::BuyYes)
    } else if key == 'n' {
        Some(TuiCommand::BuyNo)
    } else if key == 'k' {
        Some(TuiCommand::ToggleKillSwitch)
    } else if key == '+' || key == '=' {
        Some(TuiCommand::IncrementSize)
    } else if key == '-' || key == '_' {
        Some(TuiCommand::DecrementSize)
    } else if key == '[' {
        Some(TuiCommand::DecrementMaxPriceYes)
    } else if key == ']' {
        Some(TuiCommand::IncrementMaxPriceYes)
    } else if key == '{' {
        Some(TuiCommand::DecrementMaxPriceNo)
    } else if key == '}' {
        Some(TuiCommand::IncrementMaxPriceNo)
    } else {
        None
    }
}

/// Takes in a command at `now_ms`: adjustments and the kill switch change the
/// trading state and are noted in the action log; an order or a quit changes
/// nothing here and is handed back to be carried out.
pub fn apply_command(service: &mut TradeService, command: TuiCommand, now_ms: i64) -> (followup:
    Followup)
    requires
        old(service).wf(),
    ensures
        final(service).wf(),
        final(service).state() == state_after(old(service), command),
        final(service).same_setup(old(service)),
        followup == followup_of(command),
        followup != Followup::Nothing ==> final(service).log() == old(service).log(),
        followup == Followup::Nothing ==> gained_entry(
            old(service).log(),
            final(service).log(),
            now_ms,
            command_words(old(service), command),
        ),
{
    match command {
        TuiCommand::BuyYes => Followup::Order(TradeSide::Yes),
        TuiCommand::BuyNo => Followup::Order(TradeSide::No),
        TuiCommand::Quit => Followup::Quit,
        TuiCommand::ToggleKillSwitch => {
            service.toggle_kill_switch(now_ms);
            Followup::Nothing
        },
        TuiCommand::IncrementSize => {
            service.adjust_size(SIZE_STEP, now_ms);
            Followup::Nothing
        },
        TuiCommand::DecrementSize => {
            service.adjust_size(-SIZE_STEP, now_ms);
            Followup::Nothing
        },
        TuiCommand::IncrementMaxPriceYes => {
            service.adjust_max_price(TradeSide::Yes, PRICE_STEP, now_ms);
            Followup::Nothing
        },
        TuiCommand::DecrementMaxPriceYes => {
            service.adjust_max_price(TradeSide::Yes, -PRICE_STEP, now_ms);
            Followup::Nothing
        },
        TuiCommand::IncrementMaxPriceNo => {
            service.adjust_max_price(TradeSide::No, PRICE_STEP, now_ms);
            Followup::Nothing
        },
        TuiCommand::DecrementMaxPriceNo => {
            service.adjust_max_price(TradeSide::No, -PRICE_STEP, now_ms);
            Followup::Nothing
        },
    }
}

} // verus!
