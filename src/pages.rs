//! The pages of the panel and the choice of the page on show.

use crate::news::{News, Phase};
use crate::todo::{Todo, TodoItem};
use vstd::prelude::*;

verus! {

/// The pages of the panel.
#[derive(PartialEq, Eq, Structural, Clone, Copy, Debug)]
pub enum PageType {
    Main,
    Weather,
    News,
    ToDo,
    Settings,
}

/// The start page.
pub struct Main {}

impl Main {
    pub fn new() -> (r: Self) {
        Main {}
    }
}

/// The sections of the settings page.
#[derive(PartialEq, Eq, Structural, Clone, Copy, Debug)]
pub enum SettingsType {
    General,
    Config,
}

/// The settings page and the section on show.
pub struct Settings {
    pub current_setting: SettingsType,
}

impl Settings {
    /// The settings page, showing the general section.
    pub fn new() -> (r: Self)
        ensures
            r.current_setting == SettingsType::General,
    {
        Settings { current_setting: SettingsType::General }
    }

    /// Shows the section `section`.
    pub fn select(&mut self, section: SettingsType)
        ensures
            final(self).current_setting == section,
    {
        self.current_setting = section;
    }
}

/// A weather forecast; it holds nothing yet.
pub struct ForeCast {}

/// The weather page.
pub struct Weather {
    pub forecast: ForeCast,
}

impl Weather {
    pub fn new() -> (r: Self) {
        Weather { forecast: ForeCast {} }
    }
}

/// The whole panel: every page, and the one on show. `I` is the type of the
/// news page's thumbnails.
pub struct InfoApp<I> {
    pub current_page: PageType,
    pub main: Main,
    pub weather: Weather,
    pub news: News<I>,
    pub todo: Todo,
    pub settings: Settings,
}

impl<I> InfoApp<I> {
    /// The panel on its start page, with the to-do items `todo_items`
    /// loaded and the news page reading the default feed.
    pub fn new(todo_items: Vec<TodoItem>) -> (r: Self)
        ensures
            r.current_page == PageType::Main,
            r.news.wf(),
            r.news.phase == Phase::Idle,
            r.todo.items == todo_items,
            r.todo.next_id == todo_items@.len(),
            r.settings.current_setting == SettingsType::General,
    {
        InfoApp {
            current_page: PageType::Main,
            main: Main::new(),
            weather: Weather::new(),
            news: News::new(),
            todo: Todo::new(todo_items),
            settings: Settings::new(),
        }
    }

    /// Shows the page `page`.
    pub fn select_page(&mut self, page: PageType)
        ensures
            final(self).current_page == page,
            final(self).news == old(self).news,
            final(self).todo == old(self).todo,
            final(self).settings == old(self).settings,
    {
        self.current_page = page;
    }
}

} // verus!
