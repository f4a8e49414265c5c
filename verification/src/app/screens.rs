//! What the viewer shows: the contents of its two screens, and where they go.

use vstd::prelude::*;
use vstd::utf8::encode_utf8;

use crate::app::machine::App;
use crate::app::model::{optional_text, AppView};
use crate::git::repository::{file_views, FileStatus, FileView};
use crate::number::{decimal, push_decimal};

verus! {

/// The colors in which the viewer writes.
#[derive(Debug, Clone, Copy, PartialEq, Eq, Structural)]
pub enum Tint {
    Yellow,
    Green,
    Red,
    Cyan,
    Gray,
    DarkGray,
}

/// A rectangle on the terminal.
#[derive(Debug, Clone, Copy, PartialEq, Eq, Structural)]
pub struct Area {
    pub x: u16,
    pub y: u16,
    pub width: u16,
    pub height: u16,
}

/// The height of a strip of the screen: exactly so many lines, or at least so many.
#[derive(Debug, Clone, Copy, PartialEq, Eq, Structural)]
pub enum StripHeight {
    Length(u16),
    Min(u16),
}

/// The lesser of two numbers.
pub open spec fn least(a: int, b: int) -> int {
    if a <= b {
        a
    } else {
        b
    }
}

/// How many lines an area covers. Below the last line that 16 bits count there are none.
pub open spec fn room(area: Area) -> int {
    least(area.height as int, u16::MAX - area.y)
}

/// The height that a strip asks for.
pub open spec fn asked_of(height: StripHeight) -> int {
    match height {
        StripHeight::Length(n) => n as int,
        StripHeight::Min(n) => n as int,
    }
}

/// The height that some strips ask for together.
pub open spec fn asked(heights: Seq<StripHeight>) -> int
    decreases heights.len(),
{
    if heights.len() == 0 {
        0
    } else {
        asked(heights.drop_last()) + asked_of(heights.last())
    }
}

/// Whether one strip, and no other, takes what the others leave. What it asks for fits the 15 bits
/// in which a least height is kept.
pub open spec fn sole_min(heights: Seq<StripHeight>, m: int) -> bool {
    &&& 0 <= m < heights.len()
    &&& heights[m] is Min
    &&& asked_of(heights[m]) <= i16::MAX
    &&& forall|i: int| 0 <= i < heights.len() && i != m ==> (#[trigger] heights[i]) is Length
}

/// Whether strips cover an area from the top down to its last line, each where the one before it
/// ends.
pub open spec fn covers(strips: Seq<Area>, area: Area) -> bool {
    &&& strips.len() > 0
    &&& strips[0].y == area.y
    &&& forall|i: int, j: int|
        0 <= i && j == i + 1 && j < strips.len() ==> (#[trigger] strips[j]).y == (
        #[trigger] strips[i]).y + strips[i].height
    &&& strips.last().y + strips.last().height == area.y + room(area)
}

/// Whether strips share an area as they ask, where strip `m` takes what the others leave. If there
/// is too little room, that strip still has what it asks for, as far as there is any room, and none
/// of the others has more than it asks for.
pub open spec fn shares(
    strips: Seq<Area>,
    area: Area,
    heights: Seq<StripHeight>,
    m: int,
) -> bool {
    &&& covers(strips, area)
    &&& asked(heights) <= room(area) ==> forall|i: int|
        0 <= i < heights.len() && i != m ==> (#[trigger] strips[i]).height == asked_of(heights[i])
    &&& asked(heights) > room(area) ==> {
        &&& strips[m].height == least(asked_of(heights[m]), room(area))
        &&& forall|i: int|
            0 <= i < heights.len() && i != m ==> (#[trigger] strips[i]).height <= asked_of(
                heights[i],
            )
    }
}

/// `ratatui::layout::Layout::split` of a vertical layout: one strip for each height, in order,
/// each as wide as the area and at its left edge.
///
/// If just one of the heights is a least one, the strips cover the area without gap or overlap: a
/// gap or an overlap weighs more than any height, and the strip with the least height is drawn to
/// the whole area more than the end of the layout is. A least height weighs more than a fixed one,
/// and a fixed one more than that. So where the heights fit, each fixed one is met, and where they
/// do not, it is the fixed ones that give way. Which of them does, and how several least heights
/// share an area, is not claimed: the solver may settle it more than one way.
#[verifier::external_body]
fn split_vertically(area: Area, heights: &Vec<StripHeight>) -> (strips: Vec<Area>)
    ensures
        strips@.len() == heights@.len(),
        forall|i: int|
            0 <= i < strips@.len() ==> (#[trigger] strips@[i]).x == area.x && strips@[i].width
                == area.width,
        forall|m: int| #[trigger] sole_min(heights@, m) ==> shares(strips@, area, heights@, m),
{
    let constraints = heights.iter().map(
        |height| match height {
            StripHeight::Length(n) => ratatui::layout::Constraint::Length(*n),
            StripHeight::Min(n) => ratatui::layout::Constraint::Min(*n),
        },
    );
    let Area { x, y, width, height } = area;
    ratatui::layout::Layout::vertical(constraints)
        .split(ratatui::layout::Rect { x, y, width, height })
        .iter()
        .map(|r| Area { x: r.x, y: r.y, width: r.width, height: r.height })
        .collect()
}

/// Where the parts of the list screen go.
pub struct ListLayout {
    /// The search box, while there is one.
    pub search: Option<Area>,
    pub list: Area,
    pub help: Area,
}

/// Where the parts of the diff screen go.
pub struct DiffLayout {
    pub diff: Area,
    pub help: Area,
}

/// The heights of the strips of the list screen: a search box if there is one, the list, and a
/// line of help.
pub open spec fn list_heights(search_mode: bool) -> Seq<StripHeight> {
    if search_mode {
        seq![StripHeight::Length(3), StripHeight::Min(1), StripHeight::Length(1)]
    } else {
        seq![StripHeight::Min(1), StripHeight::Length(1)]
    }
}

/// The heights of the strips of the diff screen: the diff, and a line of help.
pub open spec fn diff_heights() -> Seq<StripHeight> {
    seq![StripHeight::Min(1), StripHeight::Length(1)]
}

/// The heights of the strips of the list screen.
pub fn list_strip_heights(search_mode: bool) -> (heights: Vec<StripHeight>)
    ensures
        heights@ == list_heights(search_mode),
{
    let mut heights: Vec<StripHeight> = Vec::new();
    if search_mode {
        heights.push(StripHeight::Length(3));
    }
    heights.push(StripHeight::Min(1));
    heights.push(StripHeight::Length(1));
    assert(heights@ =~= list_heights(search_mode));
    heights
}

/// The heights of the strips of the diff screen.
pub fn diff_strip_heights() -> (heights: Vec<StripHeight>)
    ensures
        heights@ == diff_heights(),
{
    let mut heights: Vec<StripHeight> = Vec::new();
    heights.push(StripHeight::Min(1));
    heights.push(StripHeight::Length(1));
    assert(heights@ =~= diff_heights());
    heights
}

/// Gives the strips of the list screen their parts, from the top.
pub fn list_layout_of(strips: &Vec<Area>, search_mode: bool) -> (layout: ListLayout)
    requires
        strips@.len() == list_heights(search_mode).len(),
    ensures
        search_mode ==> layout.search == Some(strips@[0]) && layout.list == strips@[1]
            && layout.help == strips@[2],
        !search_mode ==> layout.search is None && layout.list == strips@[0] && layout.help
            == strips@[1],
{
    if search_mode {
        ListLayout { search: Some(strips[0]), list: strips[1], help: strips[2] }
    } else {
        ListLayout { search: None, list: strips[0], help: strips[1] }
    }
}

/// Gives the strips of the diff screen their parts, from the top.
pub fn diff_layout_of(strips: &Vec<Area>) -> (layout: DiffLayout)
    requires
        strips@.len() == diff_heights().len(),
    ensures
        layout.diff == strips@[0],
        layout.help == strips@[1],
{
    DiffLayout { diff: strips[0], help: strips[1] }
}

/// The strip of an area that begins `from` lines below its top and is `height` lines high.
pub open spec fn strip(area: Area, from: int, height: int) -> Area {
    Area { x: area.x, y: (area.y + from) as u16, width: area.width, height: height as u16 }
}

/// The part of an area above its line of help: all but the last line, or the only line.
pub open spec fn above_help(area: Area) -> Area {
    strip(
        area,
        0,
        if room(area) >= 2 {
            room(area) - 1
        } else {
            room(area)
        },
    )
}

/// The line of help at the bottom of an area, which is left out if the area has only one line.
pub open spec fn help_at_bottom(area: Area) -> Area {
    if room(area) >= 2 {
        strip(area, room(area) - 1, 1)
    } else {
        strip(area, room(area), 0)
    }
}

/// Whether a screen is divided for a search: a box of three lines at the top, a line of help at
/// the bottom, and the list in between. If there is too little room, the list has one line, and
/// the box and the help share the others.
pub open spec fn divided_for_search(
    area: Area,
    search: Area,
    list: Area,
    help: Area,
) -> bool {
    let lines = room(area);
    if lines >= 5 {
        &&& search == strip(area, 0, 3)
        &&& list == strip(area, 3, lines - 4)
        &&& help == strip(area, lines - 1, 1)
    } else {
        &&& search == strip(area, 0, search.height as int)
        &&& list == strip(area, search.height as int, least(1, lines))
        &&& help == strip(area, lines - help.height, help.height as int)
        &&& search.height + list.height + help.height == lines
        &&& search.height <= 3
        &&& help.height <= 1
    }
}

/// Divides the screen for the list of files.
pub fn layout_list(area: Area, search_mode: bool) -> (layout: ListLayout)
    ensures
        layout.search is Some <==> search_mode,
        layout.search matches Some(search) ==> divided_for_search(
            area,
            search,
            layout.list,
            layout.help,
        ),
        !search_mode ==> layout.list == above_help(area) && layout.help == help_at_bottom(area),
{
    let heights = list_strip_heights(search_mode);
    let strips = split_vertically(area, &heights);
    proof {
        reveal_with_fuel(asked, 4);
        if search_mode {
            assert(sole_min(heights@, 1));
        } else {
            assert(sole_min(heights@, 0));
        }
    }
    list_layout_of(&strips, search_mode)
}

/// Divides the screen for a diff.
pub fn layout_diff(area: Area) -> (layout: DiffLayout)
    ensures
        layout.diff == above_help(area),
        layout.help == help_at_bottom(area),
{
    let heights = diff_strip_heights();
    let strips = split_vertically(area, &heights);
    proof {
        reveal_with_fuel(asked, 3);
        assert(sole_min(heights@, 0));
    }
    diff_layout_of(&strips)
}

/// The letter that marks a status.
pub open spec fn status_letter(status: FileStatus) -> char {
    match status {
        FileStatus::Modified => 'M',
        FileStatus::Added => 'A',
        FileStatus::Deleted => 'D',
        FileStatus::Renamed => 'R',
        FileStatus::Untracked => '?',
    }
}

/// The color that marks a status.
pub open spec fn status_tint(status: FileStatus) -> Tint {
    match status {
        FileStatus::Modified => Tint::Yellow,
        FileStatus::Added => Tint::Green,
        FileStatus::Deleted => Tint::Red,
        FileStatus::Renamed => Tint::Cyan,
        FileStatus::Untracked => Tint::Gray,
    }
}

impl FileStatus {
    /// The letter and the color that mark a status.
    pub fn mark(self) -> (mark: (char, Tint))
        ensures
            mark == (status_letter(self), status_tint(self)),
    {
        match self {
            FileStatus::Modified => ('M', Tint::Yellow),
            FileStatus::Added => ('A', Tint::Green),
            FileStatus::Deleted => ('D', Tint::Red),
            FileStatus::Renamed => ('R', Tint::Cyan),
            FileStatus::Untracked => ('?', Tint::Gray),
        }
    }
}

/// An entry of the list: a colored mark, and a path.
pub struct ListRow {
    pub mark: String,
    pub tint: Tint,
    pub path: String,
}

/// The contents of a `ListRow`.
pub struct ListRowView {
    pub mark: Seq<char>,
    pub tint: Tint,
    pub path: Seq<char>,
}

impl View for ListRow {
    type V = ListRowView;

    open spec fn view(&self) -> ListRowView {
        ListRowView { mark: self.mark@, tint: self.tint, path: self.path@ }
    }
}

/// The contents of some entries.
pub open spec fn row_views(rows: Seq<ListRow>) -> Seq<ListRowView> {
    Seq::new(rows.len(), |i: int| rows[i]@)
}

/// The entry for a file.
pub open spec fn row_of(file: FileView) -> ListRowView {
    ListRowView {
        mark: seq![status_letter(file.status), ' '],
        tint: status_tint(file.status),
        path: file.path,
    }
}

/// The entries for the files with the given indices; an index without a file has none.
pub open spec fn rows_of(files: Seq<FileView>, indices: Seq<usize>) -> Seq<ListRowView>
    decreases indices.len(),
{
    if indices.len() == 0 {
        seq![]
    } else {
        let earlier = rows_of(files, indices.drop_last());
        if indices.last() < files.len() {
            earlier.push(row_of(files[indices.last() as int]))
        } else {
            earlier
        }
    }
}

/// What the list screen shows.
pub struct ListScreen {
    /// What is typed in the search box, while there is one.
    pub search: Option<String>,
    pub title: String,
    pub rows: Vec<ListRow>,
    pub help: String,
    pub help_tint: Tint,
}

/// The contents of a `ListScreen`.
pub struct ListScreenView {
    pub search: Option<Seq<char>>,
    pub title: Seq<char>,
    pub rows: Seq<ListRowView>,
    pub help: Seq<char>,
    pub help_tint: Tint,
}

impl View for ListScreen {
    type V = ListScreenView;

    open spec fn view(&self) -> ListScreenView {
        ListScreenView {
            search: optional_text(self.search),
            title: self.title@,
            rows: row_views(self.rows@),
            help: self.help@,
            help_tint: self.help_tint,
        }
    }
}

/// The line of help: the last status message, in green, or else what the keys do.
pub open spec fn help_line(status: Option<Seq<char>>, keys: Seq<char>) -> (Seq<char>, Tint) {
    match status {
        Some(message) => (message, Tint::Green),
        None => (keys, Tint::DarkGray),
    }
}

/// What the keys do in the list.
pub open spec fn list_keys(search_mode: bool) -> Seq<char> {
    if search_mode {
        " Type to search | Enter: select | Esc: cancel "@
    } else {
        " j/k: move | l/Enter: view diff | e: edit | c: copy path | /: search | r: reload | q: quit"@
    }
}

/// The title of the list: how many files it shows, of how many.
pub open spec fn list_title(shown: nat, all: nat) -> Seq<char> {
    " Changed Files ("@ + decimal(shown) + "/"@ + decimal(all) + ") "@
}

/// What the list screen shows in a state.
pub open spec fn list_screen(app: AppView) -> ListScreenView {
    let help = help_line(app.status_message, list_keys(app.search_mode));
    ListScreenView {
        search: if app.search_mode {
            Some(app.search_query)
        } else {
            None
        },
        title: list_title(app.filtered_indices.len(), app.files.len()),
        rows: rows_of(app.files, app.filtered_indices),
        help: help.0,
        help_tint: help.1,
    }
}

/// What the diff screen shows.
pub struct DiffScreen {
    pub title: String,
    /// The lines in view: from this one on,
    pub first_line: usize,
    /// up to this one.
    pub end_line: usize,
    pub wrap: bool,
    pub help: String,
    pub help_tint: Tint,
}

/// The contents of a `DiffScreen`.
pub struct DiffScreenView {
    pub title: Seq<char>,
    pub first_line: int,
    pub end_line: int,
    pub wrap: bool,
    pub help: Seq<char>,
    pub help_tint: Tint,
}

impl View for DiffScreen {
    type V = DiffScreenView;

    open spec fn view(&self) -> DiffScreenView {
        DiffScreenView {
            title: self.title@,
            first_line: self.first_line as int,
            end_line: self.end_line as int,
            wrap: self.wrap,
            help: self.help@,
            help_tint: self.help_tint,
        }
    }
}

/// The lines of a diff that fit inside the border of an area of the given height.
pub open spec fn lines_in_view(height: u16) -> int {
    if height >= 2 {
        height - 2
    } else {
        0
    }
}

/// What the keys do in the diff, and which line of how many is at the top.
pub open spec fn diff_keys(wrap: bool, line: nat, total: nat) -> Seq<char> {
    " j/k: scroll | n/N: next/prev file | e: edit | c: copy path | w: wrap ("@ + (if wrap {
        "on"@
    } else {
        "off"@
    }) + ") | r: reload | h/Esc: back | q: quit | Line "@ + decimal(line) + "/"@ + decimal(total)
        + " "@
}

/// The title of the diff: its file.
pub open spec fn diff_title(file: Option<Seq<char>>) -> Seq<char> {
    " "@ + (match file {
        Some(path) => path,
        None => "Diff"@,
    }) + " "@
}

/// What the diff screen shows in a state, in an area of the given height.
pub open spec fn diff_screen(app: AppView, height: u16) -> DiffScreenView {
    let total = app.diff_lines.len() as int;
    let keys = diff_keys(
        app.wrap,
        least(app.diff_scroll + 1, total) as nat,
        total as nat,
    );
    let help = help_line(app.status_message, keys);
    DiffScreenView {
        title: diff_title(app.selected_file),
        first_line: least(app.diff_scroll as int, total),
        end_line: least(app.diff_scroll + lines_in_view(height), total),
        wrap: app.wrap,
        help: help.0,
        help_tint: help.1,
    }
}

/// The low 16 bits of a number.
pub open spec fn low16(n: int) -> u16 {
    (n % 0x1_0000) as u16
}

/// The low 16 bits of a number.
fn low_bits(n: usize) -> (low: u16)
    ensures
        low == low16(n as int),
{
    assert(n as u16 == n % 0x1_0000) by (bit_vector);
    #[verifier::truncate]
    let low = n as u16;
    low
}

/// Where the cursor stands in the search box: behind the query, counted in bytes, inside the
/// border. `None` where that lies beyond what 16 bits count.
pub open spec fn cursor_at(area: Area, query: Seq<char>) -> Option<(u16, u16)> {
    let x = area.x + low16(encode_utf8(query).len() as usize as int) + 1;
    let y = area.y + 1;
    if x <= u16::MAX && y <= u16::MAX {
        Some((x as u16, y as u16))
    } else {
        None
    }
}

/// The line of help.
fn help_text(status: &Option<String>, keys: String) -> (help: (String, Tint))
    ensures
        (help.0@, help.1) == help_line(optional_text(*status), keys@),
{
    match status {
        Some(message) => (message.clone(), Tint::Green),
        None => (keys, Tint::DarkGray),
    }
}

/// The entry for a file.
fn list_row(path: &String, status: FileStatus) -> (row: ListRow)
    ensures
        row@ == row_of(FileView { path: path@, status }),
{
    let (letter, tint) = status.mark();
    let mut mark = String::new();
    mark.push(letter);
    mark.push(' ');
    assert(mark@ =~= seq![letter, ' ']);
    ListRow { mark, tint, path: path.clone() }
}

impl App {
    /// The entries of the list.
    fn list_rows(&self) -> (rows: Vec<ListRow>)
        ensures
            row_views(rows@) == rows_of(self@.files, self@.filtered_indices),
    {
        let mut rows: Vec<ListRow> = Vec::new();
        let ghost indices = self.filtered_indices@;
        let ghost files = self@.files;
        let mut k: usize = 0;
        assert(row_views(rows@) =~= rows_of(files, indices.take(0)));
        while k < self.filtered_indices.len()
            invariant
                k <= self.filtered_indices@.len(),
                indices == self.filtered_indices@,
                files == file_views(self.files@),
                row_views(rows@) == rows_of(files, indices.take(k as int)),
            decreases self.filtered_indices.len() - k,
        {
            let ghost before = rows@;
            let i = self.filtered_indices[k];
            proof {
                assert(indices.take(k + 1).drop_last() =~= indices.take(k as int));
                assert(indices.take(k + 1).last() == i);
            }
            if i < self.files.len() {
                let row = list_row(&self.files[i].path, self.files[i].status);
                assert(files[i as int] == self.files@[i as int]@);
                rows.push(row);
                assert(row_views(rows@) =~= row_views(before).push(row@));
            }
            k += 1;
        }
        assert(indices.take(k as int) =~= indices);
        rows
    }

    /// What the list screen shows.
    pub fn draw_file_list(&self) -> (screen: ListScreen)
        ensures
            screen@ == list_screen(self@),
    {
        let mut title = " Changed Files (".to_string();
        push_decimal(&mut title, self.filtered_indices.len());
        title.append("/");
        push_decimal(&mut title, self.files.len());
        title.append(") ");
        let keys = if self.search_mode {
            " Type to search | Enter: select | Esc: cancel ".to_string()
        } else {
            " j/k: move | l/Enter: view diff | e: edit | c: copy path | /: search | r: reload | q: quit".to_string()
        };
        let (help, help_tint) = help_text(&self.status_message, keys);
        ListScreen {
            search: if self.search_mode {
                Some(self.search_query.clone())
            } else {
                None
            },
            title,
            rows: self.list_rows(),
            help,
            help_tint,
        }
    }

    /// What the diff screen shows, in an area of the given height.
    pub fn draw_diff_view(&self, height: u16) -> (screen: DiffScreen)
        ensures
            screen@ == diff_screen(self@, height),
    {
        let mut title = " ".to_string();
        match &self.selected_file {
            Some(path) => title.append(path.as_str()),
            None => title.append("Diff"),
        }
        title.append(" ");
        let total: usize = self.diff_lines.len();
        let scroll: usize = self.diff_scroll as usize;
        let in_view: usize = height.saturating_sub(2) as usize;
        let mut keys =
            " j/k: scroll | n/N: next/prev file | e: edit | c: copy path | w: wrap (".to_string();
        keys.append(if self.wrap { "on" } else { "off" });
        keys.append(") | r: reload | h/Esc: back | q: quit | Line ");
        push_decimal(&mut keys, if scroll < total { scroll + 1 } else { total });
        keys.append("/");
        push_decimal(&mut keys, total);
        keys.append(" ");
        let (help, help_tint) = help_text(&self.status_message, keys);
        DiffScreen {
            title,
            first_line: if scroll <= total { scroll } else { total },
            end_line: if scroll + in_view <= total { scroll + in_view } else { total },
            wrap: self.wrap,
            help,
            help_tint,
        }
    }

    /// Where the cursor stands in the search box.
    pub fn search_cursor(&self, area: Area) -> (at: Option<(u16, u16)>)
        ensures
            at == cursor_at(area, self@.search_query),
    {
        let len = low_bits(self.search_query.as_str().len());
        let x = match area.x.checked_add(len) {
            Some(x) => x.checked_add(1),
            None => None,
        };
        match (x, area.y.checked_add(1)) {
            (Some(x), Some(y)) => Some((x, y)),
            _ => None,
        }
    }
}

/// The lines in view lie in the diff, in order, and no more of them than the area is high.
pub proof fn law_view_is_in_diff(app: AppView, height: u16)
    ensures
        ({
            let screen = diff_screen(app, height);
            &&& 0 <= screen.first_line <= screen.end_line <= app.diff_lines.len()
            &&& screen.end_line - screen.first_line <= lines_in_view(height)
        }),
{
}

/// Every file of the list has its entry, in the order of the list, if every index is that of a
/// file.
pub proof fn law_every_file_has_a_row(files: Seq<FileView>, indices: Seq<usize>)
    requires
        forall|i: int| 0 <= i < indices.len() ==> (#[trigger] indices[i]) < files.len(),
    ensures
        rows_of(files, indices).len() == indices.len(),
        forall|i: int|
            0 <= i < indices.len() ==> #[trigger] rows_of(files, indices)[i] == row_of(
                files[indices[i] as int],
            ),
    decreases indices.len(),
{
    if indices.len() > 0 {
        let earlier = indices.drop_last();
        assert forall|i: int| 0 <= i < earlier.len() implies (#[trigger] earlier[i])
            < files.len() by {
            assert(earlier[i] == indices[i]);
        }
        law_every_file_has_a_row(files, earlier);
        assert(indices[indices.len() - 1] < files.len());
        assert forall|i: int| 0 <= i < indices.len() implies #[trigger] rows_of(files, indices)[i]
            == row_of(files[indices[i] as int]) by {
            if i < earlier.len() {
                assert(rows_of(files, indices)[i] == rows_of(files, earlier)[i]);
                assert(earlier[i] == indices[i]);
            }
        }
    }
}

/// The list screen has a box of three lines while there is a search, a list that takes the rest,
/// and a line of help; the diff screen has a diff that takes the rest, and a line of help.
pub proof fn law_heights()
    ensures
        list_heights(true) == seq![
            StripHeight::Length(3),
            StripHeight::Min(1),
            StripHeight::Length(1),
        ],
        list_heights(false) == seq![StripHeight::Min(1), StripHeight::Length(1)],
        diff_heights() == seq![StripHeight::Min(1), StripHeight::Length(1)],
{
}

/// In an area of at least two lines, the help takes the last line, and the list or the diff all the
/// lines above it; both are as wide as the area. In a smaller area there is no help.
pub proof fn law_help_takes_last_line(area: Area)
    requires
        area.y + area.height <= 65535,
    ensures
        ({
            let main = above_help(area);
            let help = help_at_bottom(area);
            &&& main.x == area.x && main.width == area.width && main.y == area.y
            &&& help.x == area.x && help.width == area.width
            &&& area.height >= 2 ==> main.height == area.height - 1 && help.height == 1 && help.y
                == area.y + area.height - 1
            &&& area.height < 2 ==> main.height == area.height && help.height == 0 && help.y
                == area.y + area.height
        }),
{
}

/// An area that reaches below the last line of 16 bits is divided like the part above it.
pub proof fn law_area_is_cut_off(area: Area, search: Area, list: Area, help: Area)
    requires
        area.y + area.height > 65535,
    ensures
        ({
            let cut = Area { height: (65535 - area.y) as u16, ..area };
            &&& above_help(area) == above_help(cut)
            &&& help_at_bottom(area) == help_at_bottom(cut)
            &&& divided_for_search(area, search, list, help) == divided_for_search(
                cut,
                search,
                list,
                help,
            )
        }),
{
}

/// A screen that is divided for a search has, from the top, the box, the list and the help, each
/// where the one before ends, down to the last line, and each as wide as the area. From five lines
/// on, the box has three of them and the help one; with less, the list has one line, if there is
/// any, and the box and the help have no more than that.
pub proof fn law_search_box_is_on_top(area: Area, search: Area, list: Area, help: Area)
    requires
        area.y + area.height <= 65535,
        divided_for_search(area, search, list, help),
    ensures
        search.x == area.x && list.x == area.x && help.x == area.x,
        search.width == area.width && list.width == area.width && help.width == area.width,
        search.y == area.y,
        list.y == search.y + search.height,
        help.y == list.y + list.height,
        help.y + help.height == area.y + area.height,
        area.height >= 5 ==> search.height == 3 && help.height == 1,
        area.height < 5 ==> search.height <= 3 && help.height <= 1,
        1 <= area.height < 5 ==> list.height == 1,
{
}

/// Each status has its letter and its color.
pub proof fn law_status_marks()
    ensures
        status_letter(FileStatus::Modified) == 'M' && status_tint(FileStatus::Modified)
            == Tint::Yellow,
        status_letter(FileStatus::Added) == 'A' && status_tint(FileStatus::Added) == Tint::Green,
        status_letter(FileStatus::Deleted) == 'D' && status_tint(FileStatus::Deleted) == Tint::Red,
        status_letter(FileStatus::Renamed) == 'R' && status_tint(FileStatus::Renamed)
            == Tint::Cyan,
        status_letter(FileStatus::Untracked) == '?' && status_tint(FileStatus::Untracked)
            == Tint::Gray,
{
}

/// An entry shows the letter of the status and a space, in the color of the status, and the path.
pub proof fn law_rows(files: Seq<FileView>, indices: Seq<usize>, file: FileView)
    ensures
        row_of(file).mark.len() == 2,
        row_of(file).mark[0] == status_letter(file.status),
        row_of(file).mark[1] == ' ',
        row_of(file).tint == status_tint(file.status),
        row_of(file).path == file.path,
        rows_of(files, indices) == indices.filter(|i: usize| i < files.len()).map_values(
            |i: usize| row_of(files[i as int]),
        ),
{
    lemma_rows_are_of_files(files, indices);
}

proof fn lemma_rows_are_of_files(files: Seq<FileView>, indices: Seq<usize>)
    ensures
        rows_of(files, indices) == indices.filter(|i: usize| i < files.len()).map_values(
            |i: usize| row_of(files[i as int]),
        ),
    decreases indices.len(),
{
    reveal(Seq::filter);
    if indices.len() > 0 {
        lemma_rows_are_of_files(files, indices.drop_last());
    }
    assert(rows_of(files, indices) =~= indices.filter(|i: usize| i < files.len()).map_values(
        |i: usize| row_of(files[i as int]),
    ));
}

/// The list screen shows the query while there is a search, how many files it lists of how many,
/// an entry for each, and the status message in green or else what the keys do, in gray.
pub proof fn law_list_screen(app: AppView)
    ensures
        ({
            let screen = list_screen(app);
            &&& app.search_mode ==> screen.search == Some(app.search_query)
            &&& !app.search_mode ==> screen.search is None
            &&& screen.title == " Changed Files ("@ + decimal(app.filtered_indices.len()) + "/"@
                + decimal(app.files.len()) + ") "@
            &&& screen.rows == rows_of(app.files, app.filtered_indices)
            &&& app.status_message matches Some(message) ==> screen.help == message
                && screen.help_tint == Tint::Green
            &&& app.status_message is None ==> screen.help_tint == Tint::DarkGray
            &&& app.status_message is None && app.search_mode ==> screen.help
                == " Type to search | Enter: select | Esc: cancel "@
            &&& app.status_message is None && !app.search_mode ==> screen.help
                == " j/k: move | l/Enter: view diff | e: edit | c: copy path | /: search | r: reload | q: quit"@
        }),
{
}

/// The diff screen shows the file, the lines from the scroll position on, as many as fit inside the
/// border, and the status message in green or else, in gray, what the keys do, with the line at the
/// top and the number of lines.
pub proof fn law_diff_screen(app: AppView, height: u16)
    ensures
        ({
            let screen = diff_screen(app, height);
            let total = app.diff_lines.len() as int;
            let top = app.diff_scroll as int;
            let inside = if height >= 2 {
                height - 2
            } else {
                0
            };
            &&& app.selected_file matches Some(path) ==> screen.title == " "@ + path + " "@
            &&& app.selected_file is None ==> screen.title == " "@ + "Diff"@ + " "@
            &&& top <= total ==> screen.first_line == top
            &&& top > total ==> screen.first_line == total && screen.end_line == total
            &&& top <= total && top + inside <= total ==> screen.end_line == top + inside
            &&& top <= total && top + inside > total ==> screen.end_line == total
            &&& screen.wrap == app.wrap
            &&& app.status_message matches Some(message) ==> screen.help == message
                && screen.help_tint == Tint::Green
            &&& app.status_message is None ==> screen.help_tint == Tint::DarkGray && screen.help
                == " j/k: scroll | n/N: next/prev file | e: edit | c: copy path | w: wrap ("@ + (
            if app.wrap {
                "on"@
            } else {
                "off"@
            }) + ") | r: reload | h/Esc: back | q: quit | Line "@ + decimal(
                (if top + 1 <= total {
                    top + 1
                } else {
                    total
                }) as nat,
            ) + "/"@ + decimal(total as nat) + " "@
        }),
{
}

/// The cursor stands one column inside the border of the search box and as many further as the
/// query has bytes (of which the low 16 bits count), on the line below the border. Beyond the last
/// column or line there is none.
pub proof fn law_cursor(area: Area, query: Seq<char>)
    requires
        encode_utf8(query).len() <= usize::MAX,
    ensures
        ({
            let x = area.x + 1 + encode_utf8(query).len() % 65536;
            &&& x <= 65535 && area.y < 65535 ==> cursor_at(area, query) == Some(
                (x as u16, (area.y + 1) as u16),
            )
            &&& x > 65535 || area.y == 65535 ==> cursor_at(area, query) is None
        }),
{
}

/// The views of the two screens and of an entry hold all that they show.
pub proof fn law_screen_views(
    list: ListScreen,
    diff: DiffScreen,
    row: ListRow,
    rows: Seq<ListRow>,
)
    ensures
        list@.search == optional_text(list.search),
        list@.title == list.title@,
        list@.rows == row_views(list.rows@),
        list@.help == list.help@,
        list@.help_tint == list.help_tint,
        diff@.title == diff.title@,
        diff@.first_line == diff.first_line,
        diff@.end_line == diff.end_line,
        diff@.wrap == diff.wrap,
        diff@.help == diff.help@,
        diff@.help_tint == diff.help_tint,
        row@.mark == row.mark@ && row@.tint == row.tint && row@.path == row.path@,
        row_views(rows).len() == rows.len(),
        forall|i: int| 0 <= i < rows.len() ==> #[trigger] row_views(rows)[i] == rows[i]@,
{
}

} // verus!
