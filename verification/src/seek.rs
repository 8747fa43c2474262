//! Addresses to go to, and searches.
use crate::menu::{Key, maybe_part};
use crate::message::{Part, Piece, piece, text};
use crate::numeral::push_decimal;
use crate::ui::{TableModel, TablePane};
use vstd::prelude::*;

verus! {

/// Whether a character can be searched for.
pub open spec fn searchable(c: char) -> bool {
    '!' <= c <= '~' || c == ' '
}

/// The table after a key while a search is entered.
pub open spec fn search_keyed(a: TableModel, key: Key) -> TableModel {
    match key {
        Key::Char(c) if searchable(c) => TableModel { search_buf: a.search_buf.push(c), ..a },
        Key::Backspace if a.search_buf.len() > 0 => TableModel {
            search_buf: a.search_buf.drop_last(),
            ..a
        },
        Key::Enter | Key::Esc => TableModel { search_mode: false, ..a },
        _ => a,
    }
}

/// What is reported after a key while a search is entered.
pub open spec fn search_report(a: TableModel, said: Option<Part>, key: Key) -> Option<Part> {
    match key {
        Key::Enter | Key::Esc => if a.search_buf.len() == 0 {
            None
        } else {
            Some(text("搜索: "@ + a.search_buf))
        },
        _ => said,
    }
}

/// What a key does while a search is entered.
pub fn handle_search_key(table: &mut TablePane, status: &mut Option<Piece>, key: Key)
    ensures
        final(table)@ == search_keyed(old(table)@, key),
        maybe_part(*final(status)) == search_report(old(table)@, maybe_part(*old(status)), key),
{
    match key {
        Key::Char(c) if ('!' <= c && c <= '~') || c == ' ' => {
            table.search_buf.push(c);
        },
        Key::Backspace => {
            table.search_buf.pop();
        },
        Key::Enter | Key::Esc => {
            table.search_mode = false;
            if crate::text::chars_of(table.search_buf.as_str()).len() == 0 {
                *status = None;
            } else {
                let mut s: String = "搜索: ".to_string();
                s.append(table.search_buf.as_str());
                *status = Some(piece(s.as_str()));
            }
        },
        _ => {},
    }
}

/// The address that an entry stands for: the first where it is none.
pub open spec fn address_entered(buf: Seq<char>) -> nat {
    match crate::numeral::unsigned_of(buf, 10, usize::MAX as nat) {
        Some(n) => n,
        None => 0,
    }
}

/// The last place of a list, or the first where it is empty.
pub open spec fn last_place(len: int) -> int {
    if len == 0 {
        0
    } else {
        len - 1
    }
}

/// The table after a key while an address is entered, in a table of some length.
pub open spec fn goto_keyed(a: TableModel, len: int, key: Key) -> TableModel {
    match key {
        Key::Char(c) if crate::text::is_ascii_digit(c) => TableModel {
            goto_buf: a.goto_buf.push(c),
            ..a
        },
        Key::Enter => TableModel {
            selected: if address_entered(a.goto_buf) < len {
                address_entered(a.goto_buf) as usize
            } else {
                a.selected
            },
            goto_mode: false,
            goto_buf: Seq::empty(),
            ..a
        },
        Key::Backspace if a.goto_buf.len() > 0 => TableModel {
            goto_buf: a.goto_buf.drop_last(),
            ..a
        },
        Key::Esc => TableModel { goto_mode: false, goto_buf: Seq::empty(), ..a },
        _ => a,
    }
}

/// What is reported after a key while an address is entered.
pub open spec fn goto_report(a: TableModel, len: int, said: Option<Part>, key: Key) -> Option<
    Part,
> {
    match key {
        Key::Enter => {
            let n = crate::numeral::decimal(address_entered(a.goto_buf));
            Some(
                text(
                    if address_entered(a.goto_buf) < len {
                        "跳转到地址 "@ + n
                    } else {
                        "地址 "@ + n + " 超出范围 (0-"@ + crate::numeral::decimal(
                            last_place(len) as nat,
                        ) + ")"@
                    },
                ),
            )
        },
        Key::Esc => None,
        _ => said,
    }
}

pub(crate) fn go(table: &mut TablePane, status: &mut Option<Piece>, len: usize)
    ensures
        final(table)@ == goto_keyed(old(table)@, len as int, Key::Enter),
        maybe_part(*final(status)) == goto_report(
            old(table)@,
            len as int,
            maybe_part(*old(status)),
            Key::Enter,
        ),
{
    let buf: Vec<char> = crate::text::chars_of(table.goto_buf.as_str());
    let addr: usize = match crate::numeral::read_unsigned(&buf, 10, usize::MAX as u128) {
        Some(n) => n as usize,
        None => 0,
    };
    assert(addr == address_entered(table@.goto_buf));
    if addr < len {
        table.selected = addr;
        let mut s: String = "跳转到地址 ".to_string();
        push_decimal(&mut s, addr as u128);
        *status = Some(piece(s.as_str()));
    } else {
        let mut s: String = "地址 ".to_string();
        push_decimal(&mut s, addr as u128);
        s.append(" 超出范围 (0-");
        push_decimal(&mut s, len.saturating_sub(1) as u128);
        s.append(")");
        *status = Some(piece(s.as_str()));
    }
    table.goto_mode = false;
    table.goto_buf = String::new();
}

/// What a key does while an address is entered, in a table of some length.
pub fn handle_goto_key(table: &mut TablePane, status: &mut Option<Piece>, len: usize, key: Key)
    ensures
        final(table)@ == goto_keyed(old(table)@, len as int, key),
        maybe_part(*final(status)) == goto_report(
            old(table)@,
            len as int,
            maybe_part(*old(status)),
            key,
        ),
{
    match key {
        Key::Char(c) if '0' <= c && c <= '9' => {
            table.goto_buf.push(c);
        },
        Key::Enter => {
            go(table, status, len);
        },
        Key::Backspace => {
            table.goto_buf.pop();
        },
        Key::Esc => {
            table.goto_mode = false;
            table.goto_buf = String::new();
            *status = None;
        },
        _ => {},
    }
}

} // verus!
