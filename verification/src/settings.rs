//! Application settings, with the recognition settings the engine reads at
//! the start of each poll tick.

use vstd::prelude::*;

use crate::title::views;

verus! {

/// Whether the chapter number shown on screen counts as already read
/// (`Current`) or as about to be read (`Previous`: one is subtracted before
/// recording).
#[derive(Clone, Copy, PartialEq, Eq, Structural, Debug)]
pub enum ChapterReadPreference {
    Previous,
    Current,
}

impl ChapterReadPreference {
    /// The stable numeric code of each preference.
    pub open spec fn as_i32(self) -> i32 {
        match self {
            ChapterReadPreference::Previous => 0,
            ChapterReadPreference::Current => 1,
        }
    }

    pub fn to_i32(self) -> (r: i32)
        ensures
            r == self.as_i32(),
    {
        match self {
            ChapterReadPreference::Previous => 0,
            ChapterReadPreference::Current => 1,
        }
    }

    pub fn from_i32(value: i32) -> (r: ChapterReadPreference)
        ensures
            value == 0 ==> r == ChapterReadPreference::Previous,
            value != 0 ==> r == ChapterReadPreference::Current,
    {
        match value {
            0 => ChapterReadPreference::Previous,
            _ => ChapterReadPreference::Current,
        }
    }

    /// The display names of the preferences, in code order.
    pub fn vec() -> (r: Vec<String>)
        ensures
            views(r@) == seq!["Previous"@, "Current"@],
    {
        let mut r: Vec<String> = Vec::new();
        r.push(String::from_str("Previous"));
        r.push(String::from_str("Current"));
        proof {
            assert(views(r@) =~= seq!["Previous"@, "Current"@]);
        }
        r
    }
}

/// Settings of the recognition engine, read once per poll tick.
pub struct NovelRecognitionSettings {
    /// The engine runs at all.
    pub enable: bool,
    /// Seconds a recognized novel must stay on screen before its chapter is
    /// recorded.
    pub delay: i64,
    /// Whether the visible chapter number is already read or about to be.
    pub chapter_read_preference: ChapterReadPreference,
    /// Jump to the reading view when a novel is recognized.
    pub when_novel_go_to_reading: bool,
    /// Jump to the reading view when no novel is recognized.
    pub when_not_novel_go_to_reading: bool,
    /// Allow the automatic flip to Completed even for ongoing novels.
    pub autocomplete_ongoing: bool,
    /// A window title must contain one of these to be considered.
    pub title_keywords: Vec<String>,
    /// A window title containing one of these aborts the whole scan.
    pub ignore_keywords: Vec<String>,
}

impl NovelRecognitionSettings {
    /// The confirmation delay is non-negative and small enough that no
    /// deadline computation can overflow.
    pub open spec fn wf(&self) -> bool {
        0 <= self.delay <= 0x7fff_ffff
    }

    /// The default settings: recognition on, a two-minute confirmation
    /// delay, the visible chapter counting as read, and keyword lists for
    /// the supported sites.
    pub fn new() -> (r: NovelRecognitionSettings)
        ensures
            r.enable,
            r.delay == 120,
            r.chapter_read_preference == ChapterReadPreference::Current,
            r.when_novel_go_to_reading,
            r.when_not_novel_go_to_reading,
            !r.autocomplete_ongoing,
            views(r.title_keywords@) == seq![
                "Chapter"@,
                "Novel Updates"@,
                "Royal Road"@,
                "Scribble Hub"@,
            ],
            views(r.ignore_keywords@) == seq!["Manga"@, "Manhua"@, "Manhwa"@],
            r.wf(),
    {
        let mut title_keywords: Vec<String> = Vec::new();
        title_keywords.push(String::from_str("Chapter"));
        title_keywords.push(String::from_str("Novel Updates"));
        title_keywords.push(String::from_str("Royal Road"));
        title_keywords.push(String::from_str("Scribble Hub"));
        let mut ignore_keywords: Vec<String> = Vec::new();
        ignore_keywords.push(String::from_str("Manga"));
        ignore_keywords.push(String::from_str("Manhua"));
        ignore_keywords.push(String::from_str("Manhwa"));
        proof {
            assert(views(title_keywords@) =~= seq![
                "Chapter"@,
                "Novel Updates"@,
                "Royal Road"@,
                "Scribble Hub"@,
            ]);
            assert(views(ignore_keywords@) =~= seq!["Manga"@, "Manhua"@, "Manhwa"@]);
        }
        NovelRecognitionSettings {
            enable: true,
            delay: 120,
            chapter_read_preference: ChapterReadPreference::Current,
            when_novel_go_to_reading: true,
            when_not_novel_go_to_reading: true,
            autocomplete_ongoing: false,
            title_keywords,
            ignore_keywords,
        }
    }
}

impl Default for NovelRecognitionSettings {
    fn default() -> (r: NovelRecognitionSettings)
        ensures
            r.enable,
            r.delay == 120,
            r.chapter_read_preference == ChapterReadPreference::Current,
            r.when_novel_go_to_reading,
            r.when_not_novel_go_to_reading,
            !r.autocomplete_ongoing,
            views(r.title_keywords@) == seq![
                "Chapter"@,
                "Novel Updates"@,
                "Royal Road"@,
                "Scribble Hub"@,
            ],
            views(r.ignore_keywords@) == seq!["Manga"@, "Manhua"@, "Manhwa"@],
            r.wf(),
    {
        NovelRecognitionSettings::new()
    }
}

/// What a mouse button does on a novel list row.
#[derive(Clone, Copy, PartialEq, Eq, Structural, Debug)]
pub enum NovelListAction {
    Nothing,
    OpenNovelInfo,
    EditNovelInfo,
    Read,
    IncreaseChapterCount,
    DecreaseChapterCount,
    OpenContextMenu,
}

impl NovelListAction {
    /// The stable numeric code of each action.
    pub open spec fn as_i32(self) -> i32 {
        match self {
            NovelListAction::Nothing => 0,
            NovelListAction::OpenNovelInfo => 1,
            NovelListAction::EditNovelInfo => 2,
            NovelListAction::Read => 3,
            NovelListAction::IncreaseChapterCount => 4,
            NovelListAction::DecreaseChapterCount => 5,
            NovelListAction::OpenContextMenu => 6,
        }
    }

    pub fn to_i32(self) -> (r: i32)
        ensures
            r == self.as_i32(),
    {
        match self {
            NovelListAction::Nothing => 0,
            NovelListAction::OpenNovelInfo => 1,
            NovelListAction::EditNovelInfo => 2,
            NovelListAction::Read => 3,
            NovelListAction::IncreaseChapterCount => 4,
            NovelListAction::DecreaseChapterCount => 5,
            NovelListAction::OpenContextMenu => 6,
        }
    }

    pub fn from_i32(value: i32) -> (r: NovelListAction)
        ensures
            0 <= value <= 6 ==> r.as_i32() == value,
            !(0 <= value <= 6) ==> r == NovelListAction::Nothing,
    {
        match value {
            0 => NovelListAction::Nothing,
            1 => NovelListAction::OpenNovelInfo,
            2 => NovelListAction::EditNovelInfo,
            3 => NovelListAction::Read,
            4 => NovelListAction::IncreaseChapterCount,
            5 => NovelListAction::DecreaseChapterCount,
            6 => NovelListAction::OpenContextMenu,
            _ => NovelListAction::Nothing,
        }
    }

    /// The display names of the actions, in code order.
    pub fn vec() -> (r: Vec<String>)
        ensures
            views(r@) == seq![
                "Nothing"@,
                "Open novel info"@,
                "Edit novel info"@,
                "Read"@,
                "Increase chapter count"@,
                "Decrease chapter count"@,
                "Open context menu"@,
            ],
    {
        let mut r: Vec<String> = Vec::new();
        r.push(String::from_str("Nothing"));
        r.push(String::from_str("Open novel info"));
        r.push(String::from_str("Edit novel info"));
        r.push(String::from_str("Read"));
        r.push(String::from_str("Increase chapter count"));
        r.push(String::from_str("Decrease chapter count"));
        r.push(String::from_str("Open context menu"));
        proof {
            assert(views(r@) =~= seq![
                "Nothing"@,
                "Open novel info"@,
                "Edit novel info"@,
                "Read"@,
                "Increase chapter count"@,
                "Decrease chapter count"@,
                "Open context menu"@,
            ]);
        }
        r
    }
}

/// General application settings.
pub struct GeneralSettings {
    pub show_sidebar: bool,
    /// Directory where data files live; computed by the host application.
    pub data_dir: String,
    pub mouse_2_action: NovelListAction,
    pub mouse_3_action: NovelListAction,
    pub mouse_4_action: NovelListAction,
    pub mouse_5_action: NovelListAction,
    /// External reader program, when one is set.
    pub reader: Option<String>,
    pub reader_args: String,
    pub language: Option<String>,
    pub open_with_windows: bool,
    pub start_minimized: bool,
    pub check_update: bool,
    pub window_state_enabled: bool,
}

impl GeneralSettings {
    /// The default settings; the data directory is handed in by the caller,
    /// which knows the platform's conventions.
    pub fn new(data_dir: String) -> (r: GeneralSettings)
        ensures
            r.show_sidebar,
            r.data_dir == data_dir,
            r.mouse_2_action == NovelListAction::Read,
            r.mouse_3_action == NovelListAction::OpenContextMenu,
            r.mouse_4_action == NovelListAction::DecreaseChapterCount,
            r.mouse_5_action == NovelListAction::IncreaseChapterCount,
            r.reader is None,
            r.reader_args@ == "-f %f -p %p"@,
            r.language is None,
            !r.open_with_windows,
            !r.start_minimized,
            !r.check_update,
            r.window_state_enabled,
    {
        GeneralSettings {
            show_sidebar: true,
            data_dir,
            mouse_2_action: NovelListAction::Read,
            mouse_3_action: NovelListAction::OpenContextMenu,
            mouse_4_action: NovelListAction::DecreaseChapterCount,
            mouse_5_action: NovelListAction::IncreaseChapterCount,
            reader: None,
            reader_args: String::from_str("-f %f -p %p"),
            language: None,
            open_with_windows: false,
            start_minimized: false,
            check_update: false,
            window_state_enabled: true,
        }
    }
}

/// Sort order of one novel list.
#[derive(Clone, Copy, PartialEq, Eq, Structural, Debug)]
pub struct Sorting {
    pub column_id: u32,
    pub is_sort_indicator: bool,
    pub sort_order: i8,
}

impl Default for Sorting {
    /// Sorted by the last-update column, descending.
    fn default() -> (r: Sorting)
        ensures
            r.column_id == 10,
            r.is_sort_indicator,
            r.sort_order == 0,
    {
        Sorting { column_id: 10, is_sort_indicator: true, sort_order: 0 }
    }
}

/// Settings of the novel lists.
pub struct ListSettings {
    /// Sorting of each of the six lists.
    pub list_sort_order: Vec<Sorting>,
    /// Column widths of each of the six lists, keyed by column id.
    pub column_width: Vec<Vec<(i32, i32)>>,
    /// Which columns are visible.
    pub visible_columns: Vec<bool>,
    /// Which tab the novel dialog opens on.
    pub open_info_behavior: i32,
    /// Always open the selected tab instead of the last one.
    pub always_open_selected_tab: bool,
}

impl ListSettings {
    pub fn new() -> (r: ListSettings)
        ensures
            r.list_sort_order@.len() == 6,
            forall|i: int| 0 <= i < 6 ==> #[trigger] r.list_sort_order@[i] == (Sorting {
                column_id: 10,
                is_sort_indicator: true,
                sort_order: 0,
            }),
            r.column_width@.len() == 6,
            forall|i: int| 0 <= i < 6 ==> (#[trigger] r.column_width@[i])@.len() == 0,
            r.visible_columns@ == seq![
                false,
                true,
                false,
                false,
                true,
                true,
                true,
                false,
                true,
                false,
                true,
            ],
            r.open_info_behavior == 0,
            !r.always_open_selected_tab,
    {
        let mut list_sort_order: Vec<Sorting> = Vec::new();
        let mut i: usize = 0;
        while i < 6
            invariant
                i <= 6,
                list_sort_order@.len() == i,
                forall|j: int| 0 <= j < i ==> #[trigger] list_sort_order@[j] == (Sorting {
                    column_id: 10,
                    is_sort_indicator: true,
                    sort_order: 0,
                }),
            decreases 6 - i,
        {
            list_sort_order.push(Sorting::default());
            i += 1;
        }
        let mut column_width: Vec<Vec<(i32, i32)>> = Vec::new();
        let mut k: usize = 0;
        while k < 6
            invariant
                k <= 6,
                column_width@.len() == k,
                forall|j: int| 0 <= j < k ==> (#[trigger] column_width@[j])@.len() == 0,
            decreases 6 - k,
        {
            column_width.push(Vec::new());
            k += 1;
        }
        let mut visible_columns: Vec<bool> = Vec::new();
        visible_columns.push(false);
        visible_columns.push(true);
        visible_columns.push(false);
        visible_columns.push(false);
        visible_columns.push(true);
        visible_columns.push(true);
        visible_columns.push(true);
        visible_columns.push(false);
        visible_columns.push(true);
        visible_columns.push(false);
        visible_columns.push(true);
        proof {
            assert(visible_columns@ =~= seq![
                false,
                true,
                false,
                false,
                true,
                true,
                true,
                false,
                true,
                false,
                true,
            ]);
        }
        ListSettings {
            list_sort_order,
            column_width,
            visible_columns,
            open_info_behavior: 0,
            always_open_selected_tab: false,
        }
    }
}

impl Default for ListSettings {
    fn default() -> (r: ListSettings)
        ensures
            r.list_sort_order@.len() == 6,
            forall|i: int| 0 <= i < 6 ==> #[trigger] r.list_sort_order@[i] == (Sorting {
                column_id: 10,
                is_sort_indicator: true,
                sort_order: 0,
            }),
            r.column_width@.len() == 6,
            forall|i: int| 0 <= i < 6 ==> (#[trigger] r.column_width@[i])@.len() == 0,
            r.visible_columns@ == seq![
                false,
                true,
                false,
                false,
                true,
                true,
                true,
                false,
                true,
                false,
                true,
            ],
            r.open_info_behavior == 0,
            !r.always_open_selected_tab,
    {
        ListSettings::new()
    }
}

/// All application settings.
pub struct Settings {
    /// Settings of the novel lists.
    pub list: ListSettings,
    /// General application settings.
    pub general: GeneralSettings,
    /// Settings of the recognition engine.
    pub novel_recognition: NovelRecognitionSettings,
}

/// Position and size of the application window, as last saved.
#[derive(Clone, Copy, PartialEq, Eq, Structural, Debug)]
pub struct WindowState {
    pub x: i32,
    pub y: i32,
    pub width: i32,
    pub height: i32,
    pub is_maximized: bool,
}

impl Default for WindowState {
    fn default() -> (r: WindowState)
        ensures
            r == (WindowState { x: 300, y: 300, width: 730, height: 600, is_maximized: false }),
    {
        WindowState { x: 300, y: 300, width: 730, height: 600, is_maximized: false }
    }
}

impl WindowState {
    /// The state to save for a window at `current`: while the window is
    /// maximized the previous position and size are kept, so that
    /// un-maximizing restores them.
    pub fn from_window_with_old_values(current: WindowState, old_state: Option<WindowState>) -> (r:
        WindowState)
        ensures
            match old_state {
                Some(old) => {
                    if current.is_maximized {
                        r == (WindowState { is_maximized: true, ..old })
                    } else {
                        r == current
                    }
                },
                None => r == current,
            },
    {
        match old_state {
            Some(old) => {
                if current.is_maximized {
                    WindowState {
                        x: old.x,
                        y: old.y,
                        width: old.width,
                        height: old.height,
                        is_maximized: true,
                    }
                } else {
                    current
                }
            },
            None => current,
        }
    }
}

/// A change of one list's sort order.
#[derive(Clone, Copy, PartialEq, Eq, Structural, Debug)]
pub struct SortingMessage {
    pub sorting: Sorting,
    pub list_index: i32,
}

} // verus!
