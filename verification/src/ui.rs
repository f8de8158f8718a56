//! The `dialog(1)` boxes that the installer shows: the arguments that open
//! each box, and how the answer that `dialog` gives back is read.

use vstd::prelude::*;
use vstd::string::*;

use crate::error::InstallerError;
use crate::text::{
    concat2, decimal, decimal_string, owned, signed_decimal, signed_decimal_string, trim, trimmed,
};

verus! {

/// The height of a message, question or input box, in lines.
pub const BOX_HEIGHT: u64 = 40;

/// The width of every box, in columns.
pub const BOX_WIDTH: u64 = 120;

/// The height of a menu with `n` entries: room for the entries and the
/// frame, but never more than 30 lines.
pub open spec fn menu_height(n: nat) -> nat {
    if n + 15 < 30 {
        n + 15
    } else {
        30
    }
}

/// The number of entries that a menu shows at once.
pub open spec fn menu_list_height(n: nat) -> nat {
    if n < 15 {
        n
    } else {
        15
    }
}

/// A menu is 15 lines taller than the list of entries that it shows, and
/// never taller than 30 lines.
pub proof fn lemma_menu_size(n: nat)
    ensures
        menu_height(n) == menu_list_height(n) + 15,
        menu_height(n) <= 30,
{
}

/// The arguments of a box of `kind` with its text and its size.
pub open spec fn box_args(title: Seq<char>, kind: Seq<char>, text: Seq<char>) -> Seq<Seq<char>> {
    seq!["--title"@, title, "--clear"@, kind, text, decimal(BOX_HEIGHT as nat), decimal(BOX_WIDTH as nat)]
}

/// The tags and descriptions of `items`, each tag before its description.
pub open spec fn flatten_items(items: Seq<(Seq<char>, Seq<char>)>) -> Seq<Seq<char>>
    decreases items.len(),
{
    if items.len() == 0 {
        Seq::empty()
    } else {
        flatten_items(items.drop_last()).push(items.last().0).push(items.last().1)
    }
}

/// The arguments of a menu box.
pub open spec fn menu_args(title: Seq<char>, prompt: Seq<char>, items: Seq<(Seq<char>, Seq<char>)>) -> Seq<Seq<char>> {
    seq![
        "--title"@,
        title,
        "--clear"@,
        "--menu"@,
        prompt,
        decimal(menu_height(items.len())),
        decimal(BOX_WIDTH as nat),
        decimal(menu_list_height(items.len())),
    ] + flatten_items(items)
}

/// What a box that returns a selection or an input answers, given the exit
/// status of `dialog` and what it wrote on its error stream.
pub open spec fn selection_outcome(code: int, output: Seq<char>) -> Result<Seq<char>, Seq<char>> {
    if code == 0 {
        Ok(trimmed(output))
    } else if code == 1 || code == 255 {
        Err(Seq::empty())
    } else {
        Err("dialog exited with code "@ + signed_decimal(code))
    }
}

fn args_of_box(title: &str, kind: &str, text: &str) -> (res: Vec<String>)
    ensures
        res.deep_view() == box_args(title@, kind@, text@),
{
    let res = vec![
        owned("--title"),
        owned(title),
        owned("--clear"),
        owned(kind),
        owned(text),
        decimal_string(BOX_HEIGHT),
        decimal_string(BOX_WIDTH),
    ];
    assert(res.deep_view() =~= box_args(title@, kind@, text@));
    res
}

/// The arguments that show `text` in a message box.
pub fn msgbox(title: &str, text: &str) -> (res: Vec<String>)
    ensures
        res.deep_view() == box_args(title@, "--msgbox"@, text@),
{
    args_of_box(title, "--msgbox", text)
}

/// The arguments that ask the question `text` in a yes/no box.
pub fn yesno(title: &str, text: &str) -> (res: Vec<String>)
    ensures
        res.deep_view() == box_args(title@, "--yesno"@, text@),
{
    args_of_box(title, "--yesno", text)
}

/// The answer of a yes/no box: yes exactly when `dialog` exits with 0.
pub fn yesno_answer(code: i32) -> (res: bool)
    ensures
        res == (code == 0),
{
    code == 0
}

/// The arguments of a menu of `items`, each a tag and its description.
pub fn menu(title: &str, prompt: &str, items: &Vec<(String, String)>) -> (res: Vec<String>)
    ensures
        res.deep_view() == menu_args(title@, prompt@, items.deep_view()),
{
    let n = items.len();
    let height: u64 = if n >= 15 {
        30
    } else {
        n as u64 + 15
    };
    let list_height: u64 = if n >= 15 {
        15
    } else {
        n as u64
    };
    let mut res = vec![
        owned("--title"),
        owned(title),
        owned("--clear"),
        owned("--menu"),
        owned(prompt),
        decimal_string(height),
        decimal_string(BOX_WIDTH),
        decimal_string(list_height),
    ];
    let ghost head = res.deep_view();
    let mut i: usize = 0;
    while i < n
        invariant
            n == items@.len(),
            i <= n,
            res.deep_view() =~= head + flatten_items(items.deep_view().take(i as int)),
        decreases n - i,
    {
        let ghost before = res.deep_view();
        res.push(items[i].0.clone());
        res.push(items[i].1.clone());
        proof {
            let t = items.deep_view().take(i + 1);
            assert(t.drop_last() =~= items.deep_view().take(i as int));
            assert(t.last() == items@[i as int].deep_view());
            assert(res.deep_view() =~= before.push(items@[i as int].0@).push(items@[i as int].1@));
        }
        i = i + 1;
    }
    assert(items.deep_view().take(n as int) =~= items.deep_view());
    assert(res.deep_view() =~= menu_args(title@, prompt@, items.deep_view()));
    res
}

/// The arguments of an input box that starts out holding `init`.
pub fn inputbox(title: &str, prompt: &str, init: &str) -> (res: Vec<String>)
    ensures
        res.deep_view() == box_args(title@, "--inputbox"@, prompt@).push(init@),
{
    let mut res = args_of_box(title, "--inputbox", prompt);
    res.push(owned(init));
    assert(res.deep_view() =~= box_args(title@, "--inputbox"@, prompt@).push(init@));
    res
}

/// The arguments of a password box, which shows what is typed as stars.
pub fn passwordbox(title: &str, prompt: &str) -> (res: Vec<String>)
    ensures
        res.deep_view() == seq![
            "--title"@,
            title@,
            "--clear"@,
            "--insecure"@,
            "--passwordbox"@,
            prompt@,
            "10"@,
            decimal(BOX_WIDTH as nat),
        ],
{
    let res = vec![
        owned("--title"),
        owned(title),
        owned("--clear"),
        owned("--insecure"),
        owned("--passwordbox"),
        owned(prompt),
        owned("10"),
        decimal_string(BOX_WIDTH),
    ];
    assert(res.deep_view() =~= seq![
        "--title"@,
        title@,
        "--clear"@,
        "--insecure"@,
        "--passwordbox"@,
        prompt@,
        "10"@,
        decimal(BOX_WIDTH as nat),
    ]);
    res
}

/// The arguments of a box that shows the lines written to its input.
pub fn programbox(title: &str, text: &str) -> (res: Vec<String>)
    ensures
        res.deep_view() == seq![
            "--title"@,
            title@,
            "--clear"@,
            "--programbox"@,
            text@,
            "20"@,
            decimal(BOX_WIDTH as nat),
        ],
{
    let res = vec![
        owned("--title"),
        owned(title),
        owned("--clear"),
        owned("--programbox"),
        owned(text),
        owned("20"),
        decimal_string(BOX_WIDTH),
    ];
    assert(res.deep_view() =~= seq![
        "--title"@,
        title@,
        "--clear"@,
        "--programbox"@,
        text@,
        "20"@,
        decimal(BOX_WIDTH as nat),
    ]);
    res
}

/// What a menu, input or password box answers: the trimmed selection when
/// `dialog` exits with 0, `Cancelled` on 1 (cancel) and 255 (escape), and
/// a `Dialog` error naming the status otherwise.
pub fn selection(code: i32, output: &str) -> (res: Result<String, InstallerError>)
    ensures
        match selection_outcome(code as int, output@) {
            Ok(s) => res matches Ok(r) && r@ == s,
            Err(m) => if code == 1 || code == 255 {
                res matches Err(InstallerError::Cancelled)
            } else {
                res matches Err(InstallerError::Dialog(msg)) && msg@ == m
            },
        },
{
    if code == 0 {
        Ok(trim(output))
    } else if code == 1 || code == 255 {
        Err(InstallerError::Cancelled)
    } else {
        let number = signed_decimal_string(code);
        Err(InstallerError::Dialog(concat2("dialog exited with code ", number.as_str())))
    }
}

} // verus!
