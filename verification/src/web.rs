//! The pages that the embedded browser shows. A page is made of a skeleton, a style sheet
//! and a script, which are put into one text, together with the state that the page
//! starts from.

use vstd::prelude::*;
use vstd::string::StringExecFns;
use crate::text::{from_chars, replace_each, replaced, text_is, to_chars};

verus! {

/// What the host of the pages shares with them. It holds nothing yet.
#[derive(Debug, Clone, Copy, PartialEq, Eq, Structural)]
pub struct AppState {}

impl AppState {
    /// A state that holds nothing.
    pub fn new() -> (r: Self)
        ensures
            r == (AppState {  }),
    {
        AppState {  }
    }
}

/// The three files of a page.
#[derive(Debug, Clone)]
pub struct CardSources {
    pub html: String,
    pub css: String,
    pub js: String,
}

/// A text made safe for standing in a string literal inside a script element: back
/// slashes and double quotes are escaped, line ends are written out, and the end tag of
/// a script is broken up. In this order.
pub open spec fn escaped_for_script(json: Seq<char>) -> Seq<char> {
    let a = replaced(json, "\\"@, "\\\\"@);
    let b = replaced(a, "\""@, "\\\""@);
    let c = replaced(b, "\r"@, "\\r"@);
    let d = replaced(c, "\n"@, "\\n"@);
    replaced(d, "</script>"@, "<\\/script>"@)
}

/// The script element that hands the page its first state, if there is one.
pub open spec fn initial_script(json: Option<Seq<char>>) -> Seq<char> {
    match json {
        Some(j) => "<script>window.__spectreInitialState=JSON.parse(\""@ + escaped_for_script(j)
            + "\");</script>"@,
        None => Seq::empty(),
    }
}

/// The script element that switches the page's debug controls on.
pub open spec fn debug_script(debug_mode: bool) -> Seq<char> {
    if debug_mode {
        "<script>window.__spectreDebugMode=true;</script>"@
    } else {
        Seq::empty()
    }
}

/// The page in one text: the skeleton with the link to the style sheet replaced by the
/// style sheet, and the reference to the script replaced by the first state, the debug
/// switch and the script.
pub open spec fn embedded_page(
    html: Seq<char>,
    css: Seq<char>,
    js: Seq<char>,
    json: Option<Seq<char>>,
    debug_mode: bool,
) -> Seq<char> {
    let styled = replaced(
        html,
        "<link rel=\"stylesheet\" href=\"css/style.css\">"@,
        "<style>"@ + css + "</style>"@,
    );
    replaced(
        styled,
        "<script src=\"js/app.js\"></script>"@,
        initial_script(json) + debug_script(debug_mode) + "<script>"@ + js + "</script>"@,
    )
}

fn swap(text: &Vec<char>, pattern: &str, with: &str) -> (r: Vec<char>)
    ensures
        r@ == replaced(text@, pattern@, with@),
{
    replace_each(text, &to_chars(pattern), &to_chars(with))
}

fn escape_for_script(json: &str) -> (r: String)
    ensures
        r@ == escaped_for_script(json@),
{
    let a = swap(&to_chars(json), "\\", "\\\\");
    let b = swap(&a, "\"", "\\\"");
    let c = swap(&b, "\r", "\\r");
    let d = swap(&c, "\n", "\\n");
    let e = swap(&d, "</script>", "<\\/script>");
    from_chars(&e)
}

/// The server utility's page in one text.
pub fn embed_server_utility(
    sources: &CardSources,
    initial_state_json: Option<&str>,
    debug_mode: bool,
) -> (r: String)
    ensures
        r@ == embedded_page(
            sources.html@,
            sources.css@,
            sources.js@,
            match initial_state_json {
                Some(j) => Some(j@),
                None => None,
            },
            debug_mode,
        ),
{
    let mut scripts = String::new();
    match initial_state_json {
        Some(json) => {
            scripts.append("<script>window.__spectreInitialState=JSON.parse(\"");
            scripts.append(escape_for_script(json).as_str());
            scripts.append("\");</script>");
        },
        None => {},
    }
    if debug_mode {
        scripts.append("<script>window.__spectreDebugMode=true;</script>");
    }
    scripts.append("<script>");
    scripts.append(sources.js.as_str());
    scripts.append("</script>");
    let mut style = String::from_str("<style>");
    style.append(sources.css.as_str());
    style.append("</style>");
    proof {
        assert(scripts@ =~= initial_script(
            match initial_state_json {
                Some(j) => Some(j@),
                None => None,
            },
        ) + debug_script(debug_mode) + "<script>"@ + sources.js@ + "</script>"@);
    }
    let styled = swap(
        &to_chars(sources.html.as_str()),
        "<link rel=\"stylesheet\" href=\"css/style.css\">",
        style.as_str(),
    );
    let whole = swap(&styled, "<script src=\"js/app.js\"></script>", scripts.as_str());
    from_chars(&whole)
}

/// What is said of a card that does not exist.
pub open spec fn unknown_card(card_name: Seq<char>) -> Seq<char> {
    "Unknown card: '"@ + card_name + "'. Cards are built into the binary at compile time."@
}

/// The page of the card `card_name` in one text. The server utility is the only card.
pub fn embedded_card_html(
    sources: &CardSources,
    card_name: &str,
    initial_state_json: Option<&str>,
    debug_mode: bool,
) -> (r: Result<String, String>)
    ensures
        match r {
            Ok(page) => card_name@ == "server_utility"@ && page@ == embedded_page(
                sources.html@,
                sources.css@,
                sources.js@,
                match initial_state_json {
                    Some(j) => Some(j@),
                    None => None,
                },
                debug_mode,
            ),
            Err(message) => card_name@ != "server_utility"@ && message@ == unknown_card(
                card_name@,
            ),
        },
{
    if text_is(card_name, "server_utility") {
        Ok(embed_server_utility(sources, initial_state_json, debug_mode))
    } else {
        let mut message = String::from_str("Unknown card: '");
        message.append(card_name);
        message.append("'. Cards are built into the binary at compile time.");
        Err(message)
    }
}

/// Where the card `card_name` is found: embedded in the program, if the card exists.
pub fn card_url(card_name: &str) -> (r: Result<String, String>)
    ensures
        match r {
            Ok(url) => card_name@ == "server_utility"@ && url@ == "embedded"@,
            Err(message) => card_name@ != "server_utility"@ && message@ == unknown_card(
                card_name@,
            ),
        },
{
    if text_is(card_name, "server_utility") {
        Ok(String::from_str("embedded"))
    } else {
        let mut message = String::from_str("Unknown card: '");
        message.append(card_name);
        message.append("'. Cards are built into the binary at compile time.");
        Err(message)
    }
}

} // verus!
