//! The map list of the game: which maps can be played in which style.
//!
//! The list is a text of tags, one to a line. A `<gamestyle type="...">` line opens the
//! section of a style, and each `<map name="...">` line after it names a map of that
//! style. Attribute values stand in double or single quotes.

use vstd::prelude::*;
use vstd::string::StringExecFns;
use crate::text::{
    begins_with, contains, ends_with, find, finishes_with, from_chars, includes,
    lemma_find_from, lines, position, rows, slice, split_lines, starts_with, text_is, texts,
    to_chars, trim, trimmed,
};
use crate::trusted::{is_plain_name, is_verbatim, lowercase_of, path_join, to_lowercase};

verus! {

/// How many styles there are.
pub const STYLE_COUNT: usize = 5;

/// The number of the style that a section tag, in lower case, opens.
pub open spec fn tag_index(tag: Seq<char>) -> Option<int> {
    if tag == "hd2multiplayer"@ {
        Some(0)
    } else if tag == "teamplay"@ {
        Some(1)
    } else if tag == "deathmatch"@ {
        Some(2)
    } else if tag == "cooperative"@ {
        Some(3)
    } else if tag == "invasion"@ {
        Some(4)
    } else {
        None
    }
}

/// The number of the style that goes by the display name `name`.
pub open spec fn name_index(name: Seq<char>) -> Option<int> {
    if name == "Objectives"@ {
        Some(0)
    } else if name == "Occupation"@ {
        Some(1)
    } else if name == "Deathmatch"@ {
        Some(2)
    } else if name == "Cooperative"@ {
        Some(3)
    } else if name == "Invasion"@ {
        Some(4)
    } else {
        None
    }
}

/// The number of the style that a section tag, in lower case, opens.
pub fn style_for_tag(tag: &str) -> (r: Option<usize>)
    ensures
        r == match tag_index(tag@) {
            Some(k) => Some(k as usize),
            None => None,
        },
        r is Some ==> r.unwrap() < STYLE_COUNT,
{
    if text_is(tag, "hd2multiplayer") {
        Some(0)
    } else if text_is(tag, "teamplay") {
        Some(1)
    } else if text_is(tag, "deathmatch") {
        Some(2)
    } else if text_is(tag, "cooperative") {
        Some(3)
    } else if text_is(tag, "invasion") {
        Some(4)
    } else {
        None
    }
}

/// The number of the style that goes by the display name `name`.
pub fn style_for_name(name: &str) -> (r: Option<usize>)
    ensures
        r == match name_index(name@) {
            Some(k) => Some(k as usize),
            None => None,
        },
        r is Some ==> r.unwrap() < STYLE_COUNT,
{
    if text_is(name, "Objectives") {
        Some(0)
    } else if text_is(name, "Occupation") {
        Some(1)
    } else if text_is(name, "Deathmatch") {
        Some(2)
    } else if text_is(name, "Cooperative") {
        Some(3)
    } else if text_is(name, "Invasion") {
        Some(4)
    } else {
        None
    }
}

/// The value that stands between `opening` and the next `closing` character. The opening
/// is looked for in `lower`, the line in lower case, and the value is taken from `orig`,
/// the line as it is, at the same position; the value is trimmed. None if the opening is
/// not found, if `orig` is too short for that position, or if no closing character
/// follows.
pub open spec fn quoted_value(
    lower: Seq<char>,
    orig: Seq<char>,
    opening: Seq<char>,
    closing: char,
) -> Option<Seq<char>> {
    match find(lower, opening) {
        Some(start) => if start + opening.len() <= orig.len() {
            let after = orig.skip(start + opening.len());
            match find(after, seq![closing]) {
                Some(end) => Some(trim(after.take(end))),
                None => None,
            }
        } else {
            None
        },
        None => None,
    }
}

/// The value of attribute `attr` on a line: in double quotes if there is such a value,
/// else in single quotes.
pub open spec fn attr_value(lower: Seq<char>, orig: Seq<char>, attr: Seq<char>) -> Option<
    Seq<char>,
> {
    match quoted_value(lower, orig, attr + "=\""@, '"') {
        Some(v) => Some(v),
        None => quoted_value(lower, orig, attr + "='"@, '\''),
    }
}

fn value_between(lower: &Vec<char>, orig: &Vec<char>, opening: &Vec<char>, closing: char) -> (r:
    Option<Vec<char>>)
    ensures
        r.is_some() == quoted_value(lower@, orig@, opening@, closing).is_some(),
        r is Some ==> r.unwrap()@ == quoted_value(lower@, orig@, opening@, closing).unwrap(),
{
    match position(lower, opening) {
        Some(start) => {
            proof {
                lemma_find_from(lower@, opening@, 0);
            }
            if opening.len() > orig.len() || start > orig.len() - opening.len() {
                return None;
            }
            let after = slice(orig, start + opening.len(), orig.len());
            assert(after@ =~= orig@.skip(start + opening.len()));
            let mut mark: Vec<char> = Vec::new();
            mark.push(closing);
            assert(mark@ =~= seq![closing]);
            match position(&after, &mark) {
                Some(end) => {
                    proof {
                        lemma_find_from(after@, mark@, 0);
                    }
                    let inner = slice(&after, 0, end);
                    assert(inner@ =~= after@.take(end as int));
                    Some(trimmed(&inner))
                },
                None => None,
            }
        },
        None => None,
    }
}

/// The value of attribute `attr` on a line, given the line in lower case and as it is.
pub fn extract_attr(line_lower: &str, line_orig: &str, attr: &str) -> (r: Option<String>)
    ensures
        match r {
            Some(v) => attr_value(line_lower@, line_orig@, attr@) == Some(v@),
            None => attr_value(line_lower@, line_orig@, attr@) is None,
        },
{
    let lower = to_chars(line_lower);
    let orig = to_chars(line_orig);
    let mut double = String::from_str(attr);
    double.append("=\"");
    let mut single = String::from_str(attr);
    single.append("='");
    match value_between(&lower, &orig, &to_chars(double.as_str()), '"') {
        Some(v) => Some(from_chars(&v)),
        None => match value_between(&lower, &orig, &to_chars(single.as_str()), '\'') {
            Some(v) => Some(from_chars(&v)),
            None => None,
        },
    }
}

/// Where a reading of the map list stands: the section that is open, by its tag in lower
/// case, and the maps found so far for each style.
pub struct PoolScan {
    pub current: Option<Seq<char>>,
    pub pools: Seq<Seq<Seq<char>>>,
}

/// The reading before the first line: no section is open and no map is found.
pub open spec fn scan_start() -> PoolScan {
    PoolScan {
        current: None,
        pools: seq![Seq::empty(), Seq::empty(), Seq::empty(), Seq::empty(), Seq::empty()],
    }
}

/// The reading after a section line, given the line trimmed and in lower case: a type
/// that is not empty opens a section.
pub open spec fn after_style_line(st: PoolScan, line: Seq<char>, lower: Seq<char>) -> PoolScan {
    match attr_value(lower, line, "type"@) {
        Some(tag) => if tag.len() > 0 {
            PoolScan { current: Some(lowercase_of(tag)), pools: st.pools }
        } else {
            st
        },
        None => st,
    }
}

/// The reading after a map line, given the line trimmed and in lower case: a name that is
/// not empty joins the style of the open section, if that is a known one.
pub open spec fn after_map_line(st: PoolScan, line: Seq<char>, lower: Seq<char>) -> PoolScan {
    match attr_value(lower, line, "name"@) {
        Some(name) => if name.len() > 0 {
            match st.current {
                Some(tag) => match tag_index(tag) {
                    Some(k) => PoolScan {
                        current: st.current,
                        pools: st.pools.update(k, st.pools[k].push(name)),
                    },
                    None => st,
                },
                None => st,
            }
        } else {
            st
        },
        None => st,
    }
}

/// What a line of the map list is about.
#[derive(Debug, Clone, Copy, PartialEq, Eq, Structural)]
pub enum LineKind {
    /// The line opens the section of a style.
    Section,
    /// The line names a map.
    MapEntry,
    /// The line is neither.
    Other,
}

/// What a line is about, given the line in lower case. A line that bears both tags opens
/// a section.
pub open spec fn kind_of(lower: Seq<char>) -> LineKind {
    if contains(lower, "<gamestyle"@) {
        LineKind::Section
    } else if contains(lower, "<map"@) {
        LineKind::MapEntry
    } else {
        LineKind::Other
    }
}

/// What a line is about, given the line in lower case.
pub fn line_kind(lower: &str) -> (r: LineKind)
    ensures
        r == kind_of(lower@),
{
    let chars = to_chars(lower);
    if includes(&chars, &to_chars("<gamestyle")) {
        LineKind::Section
    } else if includes(&chars, &to_chars("<map")) {
        LineKind::MapEntry
    } else {
        LineKind::Other
    }
}

/// The reading after one more line. An empty line changes nothing.
pub open spec fn after_line(st: PoolScan, line: Seq<char>) -> PoolScan {
    let t = trim(line);
    let lower = lowercase_of(t);
    if t.len() == 0 {
        st
    } else {
        match kind_of(lower) {
            LineKind::Section => after_style_line(st, t, lower),
            LineKind::MapEntry => after_map_line(st, t, lower),
            LineKind::Other => st,
        }
    }
}

/// The reading after all of `lines`.
pub open spec fn after_lines(lines: Seq<Seq<char>>) -> PoolScan
    decreases lines.len(),
{
    if lines.len() == 0 {
        scan_start()
    } else {
        after_line(after_lines(lines.drop_last()), lines.last())
    }
}

/// The maps of each style that a map list names.
pub open spec fn parsed_pools(content: Seq<char>) -> Seq<Seq<Seq<char>>> {
    after_lines(lines(content)).pools
}

/// The maps of each style, in the order in which the list names them.
#[derive(Debug, Clone)]
pub struct MapPools {
    objectives: Vec<String>,
    occupation: Vec<String>,
    deathmatch: Vec<String>,
    cooperative: Vec<String>,
    invasion: Vec<String>,
}

impl View for MapPools {
    type V = Seq<Seq<Seq<char>>>;

    closed spec fn view(&self) -> Seq<Seq<Seq<char>>> {
        seq![
            texts(self.objectives@),
            texts(self.occupation@),
            texts(self.deathmatch@),
            texts(self.cooperative@),
            texts(self.invasion@),
        ]
    }
}

impl MapPools {
    /// No map for any style.
    pub fn new() -> (r: Self)
        ensures
            r@ == scan_start().pools,
    {
        let r = MapPools {
            objectives: Vec::new(),
            occupation: Vec::new(),
            deathmatch: Vec::new(),
            cooperative: Vec::new(),
            invasion: Vec::new(),
        };
        assert(r@ =~~= scan_start().pools);
        r
    }

    fn pool(&self, k: usize) -> (r: &Vec<String>)
        requires
            k < STYLE_COUNT,
        ensures
            texts(r@) == self@[k as int],
    {
        if k == 0 {
            &self.objectives
        } else if k == 1 {
            &self.occupation
        } else if k == 2 {
            &self.deathmatch
        } else if k == 3 {
            &self.cooperative
        } else {
            &self.invasion
        }
    }

    fn add(&mut self, k: usize, name: String)
        requires
            k < STYLE_COUNT,
        ensures
            final(self)@ == old(self)@.update(k as int, old(self)@[k as int].push(name@)),
    {
        if k == 0 {
            self.objectives.push(name);
            assert(texts(self.objectives@) =~= texts(old(self).objectives@).push(name@));
        } else if k == 1 {
            self.occupation.push(name);
            assert(texts(self.occupation@) =~= texts(old(self).occupation@).push(name@));
        } else if k == 2 {
            self.deathmatch.push(name);
            assert(texts(self.deathmatch@) =~= texts(old(self).deathmatch@).push(name@));
        } else if k == 3 {
            self.cooperative.push(name);
            assert(texts(self.cooperative@) =~= texts(old(self).cooperative@).push(name@));
        } else {
            self.invasion.push(name);
            assert(texts(self.invasion@) =~= texts(old(self).invasion@).push(name@));
        }
        assert(self@ =~= old(self)@.update(k as int, old(self)@[k as int].push(name@)));
    }

    /// The maps of the style that goes by the display name `style`, if the list names
    /// any.
    pub fn get(&self, style: &str) -> (r: Option<&Vec<String>>)
        ensures
            self@.len() == STYLE_COUNT,
            match r {
                Some(maps) => name_index(style@) is Some && texts(maps@)
                    == self@[name_index(style@).unwrap()] && maps@.len() > 0,
                None => name_index(style@) is None || self@[name_index(style@).unwrap()].len()
                    == 0,
            },
    {
        match style_for_name(style) {
            Some(k) => {
                let maps = self.pool(k);
                assert(texts(maps@).len() == maps@.len());
                if maps.len() > 0 {
                    Some(maps)
                } else {
                    None
                }
            },
            None => None,
        }
    }
}

fn scan_line(pools: &mut MapPools, current: &mut Option<String>, line: &Vec<char>)
    ensures
        ({
            let before = PoolScan {
                current: match *old(current) {
                    Some(tag) => Some(tag@),
                    None => None,
                },
                pools: old(pools)@,
            };
            let after = after_line(before, line@);
            &&& final(pools)@ == after.pools
            &&& (match *final(current) {
                Some(tag) => Some(tag@),
                None => None,
            }) == after.current
        }),
{
    let t = trimmed(line);
    if t.len() == 0 {
        return ;
    }
    let orig = from_chars(&t);
    let lower = to_lowercase(orig.as_str());
    match line_kind(lower.as_str()) {
        LineKind::Section => match extract_attr(lower.as_str(), orig.as_str(), "type") {
            Some(tag) => {
                if !tag.as_str().is_empty() {
                    *current = Some(to_lowercase(tag.as_str()));
                }
            },
            None => {},
        },
        LineKind::MapEntry => match extract_attr(lower.as_str(), orig.as_str(), "name") {
            Some(name) => {
                if !name.as_str().is_empty() {
                    match current {
                        Some(tag) => match style_for_tag(tag.as_str()) {
                            Some(k) => {
                                pools.add(k, name);
                            },
                            None => {},
                        },
                        None => {},
                    }
                }
            },
            None => {},
        },
        LineKind::Other => {},
    }
}

/// Reads a map list and gives the maps of each style.
pub fn parse_mpmaplist(content: &str) -> (r: MapPools)
    ensures
        r@ == parsed_pools(content@),
{
    let chars = to_chars(content);
    let all = split_lines(&chars);
    let mut pools = MapPools::new();
    let mut current: Option<String> = None;
    let mut i: usize = 0;
    assert(rows(all@).take(0) =~= Seq::<Seq<char>>::empty());
    while i < all.len()
        invariant
            i <= all.len(),
            rows(all@) == lines(content@),
            pools@ == after_lines(rows(all@).take(i as int)).pools,
            (match current {
                Some(tag) => Some(tag@),
                None => None,
            }) == after_lines(rows(all@).take(i as int)).current,
        decreases all.len() - i,
    {
        proof {
            let upto = rows(all@).take(i + 1);
            assert(upto.drop_last() =~= rows(all@).take(i as int));
            assert(upto.last() == all@[i as int]@);
        }
        scan_line(&mut pools, &mut current, &all[i]);
        i += 1;
    }
    assert(rows(all@).take(all.len() as int) =~= rows(all@));
    pools
}

/// Whether a path ends like the map list's file name.
pub open spec fn names_map_list(path: Seq<char>) -> bool {
    ends_with(path, "mpmaplist.txt"@) || ends_with(path, "mpmaplist.TXT"@) || ends_with(
        path,
        "mpmaplist.Txt"@,
    )
}

/// The path of the map list, given a path that names it or the directory that holds it,
/// and whether that path is a file on disk. A path that ends like the map list's file
/// name and is a file stays as it is. To any other the file name is joined on: the
/// result ends with the file name, and begins with the path as it was given unless that
/// is a verbatim path.
pub fn resolve_mpmaplist_path(path: &str, is_file: bool) -> (r: String)
    ensures
        names_map_list(path@) && is_file ==> r@ == path@,
        !(names_map_list(path@) && is_file) ==> ends_with(r@, "mpmaplist.txt"@) && (
        !is_verbatim(path@) ==> starts_with(r@, path@)),
{
    let chars = to_chars(path);
    let named = finishes_with(&chars, &to_chars("mpmaplist.txt")) || finishes_with(
        &chars,
        &to_chars("mpmaplist.TXT"),
    ) || finishes_with(&chars, &to_chars("mpmaplist.Txt"));
    if named && is_file {
        String::from_str(path)
    } else {
        proof {
            reveal_strlit("mpmaplist.txt");
            assert(is_plain_name("mpmaplist.txt"@));
        }
        path_join(path, "mpmaplist.txt")
    }
}

/// The maps that every installation has, for a style that goes by the display name
/// `style`; none for a style that is not known.
pub open spec fn stock_maps(style: Seq<char>) -> Seq<Seq<char>> {
    if style == "Cooperative"@ || style == "Occupation"@ || style == "Objectives"@ || style
        == "Deathmatch"@ {
        seq!["Brest"@, "Burma1"@, "Africa1"@, "Norway1"@, "Crete1"@]
    } else {
        Seq::empty()
    }
}

/// The maps that can be offered for a style where no map list was read.
pub fn get_available_maps_static(style: &str) -> (r: Vec<String>)
    ensures
        texts(r@) == stock_maps(style@),
{
    let mut r: Vec<String> = Vec::new();
    if text_is(style, "Cooperative") || text_is(style, "Occupation") || text_is(
        style,
        "Objectives",
    ) || text_is(style, "Deathmatch") {
        r.push(String::from_str("Brest"));
        r.push(String::from_str("Burma1"));
        r.push(String::from_str("Africa1"));
        r.push(String::from_str("Norway1"));
        r.push(String::from_str("Crete1"));
    }
    assert(texts(r@) =~= stock_maps(style@));
    r
}

/// The first line, from position `from` on, that is not empty when trimmed, as it is
/// when trimmed; the empty text if there is none.
pub open spec fn first_filled_from(ls: Seq<Seq<char>>, from: int) -> Seq<char>
    decreases ls.len() - from,
{
    if from < 0 || from >= ls.len() {
        Seq::empty()
    } else if trim(ls[from]).len() > 0 {
        trim(ls[from])
    } else {
        first_filled_from(ls, from + 1)
    }
}

/// Whether a text begins like a map list: its first line that is not empty opens one.
pub open spec fn opens_map_list(content: Seq<char>) -> bool {
    starts_with(first_filled_from(lines(content), 0), "<MAP_LIST>"@)
}

/// Whether a text begins like a map list.
pub fn looks_like_map_list(content: &str) -> (r: bool)
    ensures
        r == opens_map_list(content@),
{
    let all = split_lines(&to_chars(content));
    let mut i: usize = 0;
    while i < all.len()
        invariant
            i <= all.len(),
            rows(all@) == lines(content@),
            first_filled_from(lines(content@), 0) == first_filled_from(lines(content@), i as int),
        decreases all.len() - i,
    {
        assert(rows(all@)[i as int] == all@[i as int]@);
        let t = trimmed(&all[i]);
        if t.len() > 0 {
            return begins_with(&t, &to_chars("<MAP_LIST>"));
        }
        i += 1;
    }
    proof {
        reveal_strlit("<MAP_LIST>");
    }
    false
}

/// What the user interface is told about a file that the user chose as the map list,
/// given the extension of its name in lower case and what it holds: nothing was chosen;
/// or the file is not a map list, by its name or by what it holds or because it cannot
/// be read; or the file is taken, and its path is told.
pub open spec fn choice_answer(
    path: Option<Seq<char>>,
    extension_lower: Option<Seq<char>>,
    content: Option<Seq<char>>,
) -> Seq<char> {
    match path {
        None => "MPMAPLIST_PATH_CANCELLED"@,
        Some(p) => if extension_lower == Some("txt"@) && content is Some && opens_map_list(
            content.unwrap(),
        ) {
            "MPMAPLIST_PATH:"@ + p
        } else {
            "MPMAPLIST_PATH_INVALID:Unexpected file format."@
        },
    }
}

/// What the user interface is told about a file that the user chose as the map list,
/// given the extension of its name in lower case.
pub fn map_list_choice_given(
    path: Option<&str>,
    extension_lower: Option<&str>,
    content: Option<&str>,
) -> (r: String)
    ensures
        r@ == choice_answer(
            match path {
                Some(p) => Some(p@),
                None => None,
            },
            match extension_lower {
                Some(e) => Some(e@),
                None => None,
            },
            match content {
                Some(c) => Some(c@),
                None => None,
            },
        ),
{
    let p = match path {
        Some(p) => p,
        None => {
            return String::from_str("MPMAPLIST_PATH_CANCELLED");
        },
    };
    let named = match extension_lower {
        Some(e) => text_is(e, "txt"),
        None => false,
    };
    let held = match content {
        Some(c) => looks_like_map_list(c),
        None => false,
    };
    if named && held {
        let mut r = String::from_str("MPMAPLIST_PATH:");
        r.append(p);
        r
    } else {
        String::from_str("MPMAPLIST_PATH_INVALID:Unexpected file format.")
    }
}

/// What the user interface is told about a file that the user chose as the map list,
/// given the extension of its name, if it has one, and what it holds, if it can be read.
pub fn browse_mpmaplist_with_validation(
    path: Option<&str>,
    extension: Option<&str>,
    content: Option<&str>,
) -> (r: String)
    ensures
        r@ == choice_answer(
            match path {
                Some(p) => Some(p@),
                None => None,
            },
            match extension {
                Some(e) => Some(lowercase_of(e@)),
                None => None,
            },
            match content {
                Some(c) => Some(c@),
                None => None,
            },
        ),
{
    match extension {
        Some(e) => {
            let lower = to_lowercase(e);
            map_list_choice_given(path, Some(lower.as_str()), content)
        },
        None => map_list_choice_given(path, None, content),
    }
}

} // verus!
