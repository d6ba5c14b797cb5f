//! Choosing an account.
use vstd::prelude::*;

use crate::config::AccountConfig;
use crate::desk::Key;
use crate::ui::widgets::{cut, AccountSelection};

verus! {

/// What a key comes to while an account is chosen.
pub enum AccountChoice {
    /// Nothing is chosen yet.
    Open,
    /// The user leaves without an account.
    Quit,
    Chosen(String, AccountConfig),
}

/// Whether a key moves down.
pub open spec fn moves_down(key: Key) -> bool {
    key == Key::Char('j') || key == Key::Down
}

/// Whether a key moves up.
pub open spec fn moves_up(key: Key) -> bool {
    key == Key::Char('k') || key == Key::Up
}

/// Does what a key stands for while an account is chosen.
pub fn choose_account(selection: &mut AccountSelection, key: Key) -> (r: AccountChoice)
    ensures
        final(selection).accounts == old(selection).accounts,
        final(selection).selected == if moves_down(key) {
            if old(selection).selected + 1 < old(selection).accounts@.len() {
                old(selection).selected + 1
            } else {
                old(selection).selected as int
            }
        } else if moves_up(key) {
            cut(old(selection).selected as int, 1)
        } else {
            old(selection).selected as int
        },
        match r {
            AccountChoice::Quit => key == Key::Char('q'),
            AccountChoice::Chosen(name, account) => {
                &&& key == Key::Enter
                &&& old(selection).selected < old(selection).accounts@.len()
                &&& name@ == old(selection).accounts@[old(selection).selected as int].0@
                &&& account@ == old(selection).accounts@[old(selection).selected as int].1@
            },
            AccountChoice::Open => key != Key::Char('q') && !(key == Key::Enter
                && old(selection).selected < old(selection).accounts@.len()),
        },
{
    match key {
        Key::Char('q') => AccountChoice::Quit,
        Key::Char('j') | Key::Down => {
            selection.select_next();
            AccountChoice::Open
        },
        Key::Char('k') | Key::Up => {
            selection.select_previous();
            AccountChoice::Open
        },
        Key::Enter => match selection.current_account() {
            Some(account) => AccountChoice::Chosen(account.0.clone(), account.1.clone()),
            None => AccountChoice::Open,
        },
        _ => AccountChoice::Open,
    }
}

} // verus!
