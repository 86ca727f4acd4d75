//! One request from its first fetch to its output.
//!
//! Fetching, printing and storing are the caller's work. A job says what to
//! do next, is told how it went, and says what to do then: fetch the menu
//! page, read it, fetch the page of each item where that is wanted, in the
//! order of the menu, and put the menu out. A page that cannot be fetched or
//! read costs the job its menu, or the one item its record, and nothing more.

use crate::document::{menu_json, menu_json_min, Json, JsonView};
use crate::date::date_text;
use crate::model::{
    has_item, menu_text, with_details, Menu, MenuView, SectionView,
};
use crate::parse::parse_item::parsed_item;
use crate::parse::parse_menu::parsed_menu;
use crate::request::item_request::item_url_text;
use crate::request::menu_request::{file_name_text, url_text, MenuRequest};
use vstd::prelude::*;
use vstd::string::StringExecFns;

verus! {

/// What a run was asked for.
#[derive(Clone, Debug, PartialEq, Eq)]
pub struct Options {
    /// Whether to fetch the page of each item too.
    pub with_details: bool,
    /// The directory to store minimal documents in, if any.
    pub save: Option<String>,
    /// The directory to store full documents in, if any.
    pub save_pretty: Option<String>,
}

pub struct OptionsView {
    pub with_details: bool,
    pub save: Option<Seq<char>>,
    pub save_pretty: Option<Seq<char>>,
}

impl View for Options {
    type V = OptionsView;

    open spec fn view(&self) -> OptionsView {
        OptionsView {
            with_details: self.with_details,
            save: crate::model::text_view(self.save),
            save_pretty: crate::model::text_view(self.save_pretty),
        }
    }
}

/// Where a job stands.
#[derive(Clone, Copy, PartialEq, Eq, Structural, Debug)]
pub enum Stage {
    /// Nothing was done yet.
    Start,
    /// The menu page is being fetched.
    AwaitMenu,
    /// The page of an item is being fetched.
    AwaitItem,
    /// The menu was put out, or given up.
    Done,
}

/// What a job is told.
#[derive(Clone, Debug, PartialEq, Eq)]
pub enum Event {
    /// Begin.
    Begin,
    /// The page asked for, as text.
    Body(String),
    /// The page asked for could not be fetched.
    Failed,
}

pub enum EventView {
    Begin,
    Body(Seq<char>),
    Failed,
}

impl View for Event {
    type V = EventView;

    open spec fn view(&self) -> EventView {
        match self {
            Event::Begin => EventView::Begin,
            Event::Body(b) => EventView::Body(b@),
            Event::Failed => EventView::Failed,
        }
    }
}

/// What a job asks for. A `notice` is to be printed before the rest is done.
#[derive(Debug, PartialEq, Eq)]
pub enum Action {
    /// Fetch the page at `url`, and tell the job its text or that it failed.
    Fetch { notice: String, url: String },
    /// Print the text. The job is done.
    Show { text: String },
    /// Write the document to the file at `path`, indented where `pretty` is
    /// set. The job is done.
    Store { notice: String, path: String, document: Json, pretty: bool },
    /// The request is given up. The job is done.
    Skip { notice: String },
    /// Nothing: the job did not expect what it was told.
    Nothing,
}

pub enum ActionView {
    Fetch { notice: Seq<char>, url: Seq<char> },
    Show { text: Seq<char> },
    Store { notice: Seq<char>, path: Seq<char>, document: JsonView, pretty: bool },
    Skip { notice: Seq<char> },
    Nothing,
}

impl View for Action {
    type V = ActionView;

    open spec fn view(&self) -> ActionView {
        match self {
            Action::Fetch { notice, url } => ActionView::Fetch { notice: notice@, url: url@ },
            Action::Show { text } => ActionView::Show { text: text@ },
            Action::Store { notice, path, document, pretty } => ActionView::Store {
                notice: notice@,
                path: path@,
                document: document@,
                pretty: *pretty,
            },
            Action::Skip { notice } => ActionView::Skip { notice: notice@ },
            Action::Nothing => ActionView::Nothing,
        }
    }
}

/// A job as plain values. `section` and `item` give the place of the item
/// whose page is being fetched, and are 0 at every other stage.
pub struct JobView {
    pub request: MenuRequest,
    pub options: OptionsView,
    pub stage: Stage,
    pub menu: Option<MenuView>,
    pub section: int,
    pub item: int,
}

pub open spec fn valid_job(j: JobView) -> bool {
    match j.stage {
        Stage::Start | Stage::AwaitMenu => j.menu is None && j.section == 0 && j.item == 0,
        Stage::AwaitItem => j.menu is Some && has_item(j.menu->0, j.section, j.item),
        Stage::Done => j.section == 0 && j.item == 0,
    }
}

/// The line that announces the fetch of a menu page.
pub open spec fn progress_line(request: MenuRequest) -> Seq<char> {
    "Fetching "@ + date_text(request.date@) + " "@ + request.meal.spec_name() + " for "@
        + request.restaurant.spec_name() + " ... \t"@
}

/// The line that announces the storing of a menu in `dir`.
pub open spec fn storing_line(request: MenuRequest, dir: Seq<char>) -> Seq<char> {
    "Storing "@ + date_text(request.date@) + " "@ + request.meal.spec_name() + " for "@
        + request.restaurant.spec_name() + " on disk to "@ + dir + " ... \t"@
}

/// The first section at or after `s` that has an item; the number of
/// sections where there is none.
pub open spec fn stocked_from(sections: Seq<SectionView>, s: int) -> int
    decreases sections.len() - s,
{
    if s < 0 || s >= sections.len() {
        sections.len() as int
    } else if sections[s].items.len() > 0 {
        s
    } else {
        stocked_from(sections, s + 1)
    }
}

/// The place of the item after that at place `i` of section `s`, in the order
/// of the menu; the section is the number of sections after the last item.
pub open spec fn place_after(menu: MenuView, s: int, i: int) -> (int, int) {
    if i + 1 < menu.sections[s].items.len() {
        (s, i + 1)
    } else {
        (stocked_from(menu.sections, s + 1), 0)
    }
}

/// How a menu is put out: stored as its minimal document where `save` names a
/// directory, else stored as its full document where `save_pretty` names
/// one, else shown as text.
pub open spec fn output(
    request: MenuRequest,
    options: OptionsView,
    menu: MenuView,
    lead: Seq<char>,
) -> ActionView {
    match options.save {
        Some(dir) => ActionView::Store {
            notice: lead + storing_line(request, dir),
            path: dir + "/"@ + file_name_text(request, options.save_pretty is Some),
            document: menu_json_min(menu),
            pretty: false,
        },
        None => match options.save_pretty {
            Some(dir) => ActionView::Store {
                notice: lead + storing_line(request, dir),
                path: dir + "/"@ + file_name_text(request, true),
                document: menu_json(menu),
                pretty: true,
            },
            None => ActionView::Show { text: lead + menu_text(menu) },
        },
    }
}

/// What a job does with its menu next: it asks for the page of the item at
/// place `i` of section `s`, where details are wanted and the menu has that
/// item; else it puts the menu out and is done.
pub open spec fn settle(j: JobView, menu: MenuView, s: int, i: int, lead: Seq<char>) -> (
    JobView,
    ActionView,
) {
    if j.options.with_details && has_item(menu, s, i) {
        (
            JobView { stage: Stage::AwaitItem, menu: Some(menu), section: s, item: i, ..j },
            ActionView::Fetch {
                notice: lead,
                url: item_url_text(menu.sections[s].items[i].recipe),
            },
        )
    } else {
        (
            JobView { stage: Stage::Done, menu: Some(menu), section: 0, item: 0, ..j },
            output(j.request, j.options, menu, lead),
        )
    }
}

/// The menu after the page of the item at place `i` of section `s` came in:
/// with the record of the page in that item where the page could be read,
/// else as it was.
pub open spec fn delivered(menu: MenuView, s: int, i: int, body: Seq<char>) -> MenuView {
    match parsed_item(body) {
        Ok(d) => with_details(menu, s, i, d),
        Err(_) => menu,
    }
}

/// The job given up.
pub open spec fn given_up(j: JobView) -> (JobView, ActionView) {
    (
        JobView { stage: Stage::Done, menu: None, section: 0, item: 0, ..j },
        ActionView::Skip { notice: "[failed]\n"@ },
    )
}

/// What a job becomes, and what it asks for, when it is told `event`.
pub open spec fn step(j: JobView, event: EventView) -> (JobView, ActionView) {
    match (j.stage, event) {
        (Stage::Start, EventView::Begin) => (
            JobView { stage: Stage::AwaitMenu, ..j },
            ActionView::Fetch { notice: progress_line(j.request), url: url_text(j.request) },
        ),
        (Stage::AwaitMenu, EventView::Body(body)) => match parsed_menu(body, j.request) {
            Ok(menu) => settle(j, menu, stocked_from(menu.sections, 0), 0, "[done]\n"@),
            Err(_) => given_up(j),
        },
        (Stage::AwaitMenu, EventView::Failed) => given_up(j),
        (Stage::AwaitItem, EventView::Body(body)) => {
            let menu = delivered(j.menu->0, j.section, j.item, body);
            let next = place_after(menu, j.section, j.item);
            settle(j, menu, next.0, next.1, Seq::empty())
        },
        (Stage::AwaitItem, EventView::Failed) => {
            let next = place_after(j.menu->0, j.section, j.item);
            settle(j, j.menu->0, next.0, next.1, Seq::empty())
        },
        _ => (j, ActionView::Nothing),
    }
}

/// Whatever a job is told, it stays a job: no event leads it astray.
pub proof fn lemma_step_valid(j: JobView, event: EventView)
    requires
        valid_job(j),
    ensures
        valid_job(step(j, event).0),
{
}

/// A page of an item that cannot be fetched or read leaves every item as it
/// was, and the job goes on to the next item or puts the menu out.
pub proof fn lemma_failed_item(j: JobView, event: EventView)
    requires
        valid_job(j),
        j.stage == Stage::AwaitItem,
        event is Failed || (event is Body && parsed_item(event->Body_0) is Err),
    ensures
        step(j, event).0.menu == j.menu,
        step(j, event).0.stage == Stage::AwaitItem || step(j, event).0.stage == Stage::Done,
        !(step(j, event).1 is Skip),
{
}

/// Nothing is shown or stored but a menu that was read: what a job puts out
/// is the text or a document of the menu that it then holds, and a job that
/// gave its request up puts nothing out.
pub proof fn lemma_output_is_menu(j: JobView, event: EventView)
    requires
        valid_job(j),
    ensures
        match step(j, event).1 {
            ActionView::Show { text } => step(j, event).0.menu is Some && exists|lead: Seq<char>|
                text == lead + menu_text(step(j, event).0.menu->0),
            ActionView::Store { document, pretty, .. } => step(j, event).0.menu is Some
                && document == (if pretty {
                    menu_json(step(j, event).0.menu->0)
                } else {
                    menu_json_min(step(j, event).0.menu->0)
                }),
            ActionView::Skip { .. } => step(j, event).0.menu is None,
            _ => true,
        },
{
    let after = step(j, event).0;
    match step(j, event).1 {
        ActionView::Show { text } => {
            let lead = if j.stage == Stage::AwaitMenu {
                "[done]\n"@
            } else {
                Seq::<char>::empty()
            };
            assert(text == lead + menu_text(after.menu->0));
        },
        _ => {},
    }
}

/// A page of an item that comes in and can be read puts its record into
/// that item and into no other.
pub proof fn lemma_delivered_item(j: JobView, body: Seq<char>)
    requires
        valid_job(j),
        j.stage == Stage::AwaitItem,
        parsed_item(body) is Ok,
    ensures
        step(j, EventView::Body(body)).0.menu == Some(
            with_details(j.menu->0, j.section, j.item, parsed_item(body)->Ok_0),
        ),
        !(step(j, EventView::Body(body)).1 is Skip),
{
}

fn first_stocked(menu: &Menu, from: usize) -> (r: usize)
    requires
        from <= menu.sections.len(),
    ensures
        r == stocked_from(menu@.sections, from as int),
        from <= r <= menu.sections.len(),
        r < menu.sections.len() ==> menu.sections[r as int].items.len() > 0,
{
    let mut s: usize = from;
    while s < menu.sections.len() && menu.sections[s].items.len() == 0
        invariant
            from <= s <= menu.sections.len(),
            stocked_from(menu@.sections, from as int) == stocked_from(menu@.sections, s as int),
        decreases menu.sections.len() - s,
    {
        assert(menu@.sections[s as int] == menu.sections[s as int]@);
        s = s + 1;
    }
    proof {
        if s < menu.sections.len() {
            assert(menu@.sections[s as int] == menu.sections[s as int]@);
        }
    }
    s
}

fn announce(word: &str, request: &MenuRequest) -> (r: String)
    ensures
        r@ == word@ + date_text(request.date@) + " "@ + request.meal.spec_name() + " for "@
            + request.restaurant.spec_name(),
{
    let mut r = String::from_str(word);
    r.append(request.date.to_text().as_str());
    r.append(" ");
    r.append(request.meal.name());
    r.append(" for ");
    r.append(request.restaurant.name());
    r
}

fn store(
    request: &MenuRequest,
    dir: &String,
    pretty_name: bool,
    document: Json,
    pretty: bool,
    lead: &str,
) -> (r: Action)
    ensures
        r@ == (ActionView::Store {
            notice: lead@ + storing_line(*request, dir@),
            path: dir@ + "/"@ + file_name_text(*request, pretty_name),
            document: document@,
            pretty,
        }),
{
    let mut notice = String::from_str(lead);
    notice.append(announce("Storing ", request).as_str());
    notice.append(" on disk to ");
    notice.append(dir.as_str());
    notice.append(" ... \t");
    assert(notice@ =~= lead@ + storing_line(*request, dir@));
    let mut path = dir.clone();
    path.append("/");
    path.append(request.file_name(pretty_name).as_str());
    assert(path@ =~= dir@ + "/"@ + file_name_text(*request, pretty_name));
    Action::Store { notice, path, document, pretty }
}

fn put_out(request: &MenuRequest, options: &Options, menu: &Menu, lead: &str) -> (r: Action)
    ensures
        r@ == output(*request, options@, menu@, lead@),
{
    match &options.save {
        Some(dir) => store(
            request,
            dir,
            options.save_pretty.is_some(),
            menu.to_json_min(),
            false,
            lead,
        ),
        None => match &options.save_pretty {
            Some(dir) => store(request, dir, true, menu.to_json(), true, lead),
            None => {
                let mut text = String::from_str(lead);
                text.append(menu.render().as_str());
                Action::Show { text }
            },
        },
    }
}

/// One request on its way from fetch to output.
pub struct Job {
    request: MenuRequest,
    options: Options,
    stage: Stage,
    menu: Option<Menu>,
    section: usize,
    item: usize,
}

impl View for Job {
    type V = JobView;

    closed spec fn view(&self) -> JobView {
        JobView {
            request: self.request,
            options: self.options@,
            stage: self.stage,
            menu: match self.menu {
                Some(m) => Some(m@),
                None => None,
            },
            section: self.section as int,
            item: self.item as int,
        }
    }
}

impl Job {
    /// A job is at its start, waits for a page, or is done; while it waits
    /// for the page of an item, its menu has that item.
    #[verifier::type_invariant]
    pub closed spec fn well_formed(self) -> bool {
        valid_job(self@)
    }

    /// The job for a request, at its start.
    pub fn new(request: MenuRequest, options: Options) -> (r: Job)
        ensures
            r@ == (JobView {
                request,
                options: options@,
                stage: Stage::Start,
                menu: None,
                section: 0,
                item: 0,
            }),
    {
        Job { request, options, stage: Stage::Start, menu: None, section: 0, item: 0 }
    }

    pub fn stage(&self) -> (r: Stage)
        ensures
            r == self@.stage,
            valid_job(self@),
    {
        proof {
            use_type_invariant(self);
        }
        self.stage
    }

    /// The menu of the job as it stands, once its page was read.
    pub fn into_menu(self) -> (r: Option<Menu>)
        ensures
            r is Some <==> self@.menu is Some,
            r matches Some(m) ==> self@.menu == Some(m@),
    {
        self.menu
    }

    fn settled(
        request: MenuRequest,
        options: Options,
        menu: Menu,
        s: usize,
        i: usize,
        lead: &str,
        Ghost(before): Ghost<JobView>,
    ) -> (r: (Job, Action))
        requires
            before.request == request,
            before.options == options@,
        ensures
            (r.0@, r.1@) == settle(before, menu@, s as int, i as int, lead@),
    {
        if options.with_details && s < menu.sections.len() && i < menu.sections[s].items.len() {
            assert(menu@.sections[s as int] == menu.sections[s as int]@);
            assert(menu@.sections[s as int].items[i as int]
                == menu.sections[s as int].items[i as int]@);
            let url = menu.sections[s].items[i].details_request().url();
            let notice = String::from_str(lead);
            (
                Job {
                    request,
                    options,
                    stage: Stage::AwaitItem,
                    menu: Some(menu),
                    section: s,
                    item: i,
                },
                Action::Fetch { notice, url },
            )
        } else {
            proof {
                if s < menu.sections.len() {
                    assert(menu@.sections[s as int] == menu.sections[s as int]@);
                }
            }
            let action = put_out(&request, &options, &menu, lead);
            (
                Job { request, options, stage: Stage::Done, menu: Some(menu), section: 0, item: 0 },
                action,
            )
        }
    }

    fn gave_up(request: MenuRequest, options: Options, Ghost(before): Ghost<JobView>) -> (r: (
        Job,
        Action,
    ))
        requires
            before.request == request,
            before.options == options@,
        ensures
            (r.0@, r.1@) == given_up(before),
    {
        (
            Job { request, options, stage: Stage::Done, menu: None, section: 0, item: 0 },
            Action::Skip { notice: String::from_str("[failed]\n") },
        )
    }

    fn next_place(menu: &Menu, s: usize, i: usize) -> (r: (usize, usize))
        requires
            has_item(menu@, s as int, i as int),
        ensures
            (r.0 as int, r.1 as int) == place_after(menu@, s as int, i as int),
            r.0 <= menu.sections.len(),
    {
        assert(menu@.sections.len() == menu.sections.len());
        assert(menu@.sections[s as int] == menu.sections[s as int]@);
        assert(menu@.sections[s as int].items.len() == menu.sections[s as int].items.len());
        if i + 1 < menu.sections[s].items.len() {
            (s, i + 1)
        } else {
            (first_stocked(menu, s + 1), 0)
        }
    }

    /// Tells the job what happened, and gives the job as it then stands and
    /// what it asks for.
    pub fn step(self, event: Event) -> (r: (Job, Action))
        ensures
            (r.0@, r.1@) == step(self@, event@),
    {
        proof {
            use_type_invariant(&self);
        }
        let ghost before = self@;
        let Job { request, options, stage, menu, section, item } = self;
        match stage {
            Stage::Start => match event {
                Event::Begin => {
                    let mut notice = announce("Fetching ", &request);
                    notice.append(" ... \t");
                    assert(notice@ =~= progress_line(request));
                    let url = request.url();
                    (
                        Job {
                            request,
                            options,
                            stage: Stage::AwaitMenu,
                            menu: None,
                            section: 0,
                            item: 0,
                        },
                        Action::Fetch { notice, url },
                    )
                },
                _ => (Job { request, options, stage, menu, section, item }, Action::Nothing),
            },
            Stage::AwaitMenu => match event {
                Event::Body(body) => match crate::parse::parse_menu::parse(
                    body.as_str(),
                    &request,
                ) {
                    Ok(read) => {
                        let s: usize = first_stocked(&read, 0);
                        Job::settled(request, options, read, s, 0, "[done]\n", Ghost(before))
                    },
                    Err(_) => Job::gave_up(request, options, Ghost(before)),
                },
                Event::Failed => Job::gave_up(request, options, Ghost(before)),
                Event::Begin => (
                    Job { request, options, stage, menu, section, item },
                    Action::Nothing,
                ),
            },
            Stage::AwaitItem => match menu {
                Some(mut held) => match event {
                    Event::Body(body) => {
                        let ghost old_menu = held@;
                        match crate::parse::parse_item::parse(body.as_str()) {
                            Ok(detail) => {
                                held.set_details_at(section, item, detail);
                            },
                            Err(_) => {},
                        }
                        assert(held@ == delivered(old_menu, section as int, item as int, body@));
                        let next = Job::next_place(&held, section, item);
                        assert("" @ =~= Seq::<char>::empty()) by {
                            reveal_strlit("");
                        }
                        Job::settled(request, options, held, next.0, next.1, "", Ghost(before))
                    },
                    Event::Failed => {
                        let next = Job::next_place(&held, section, item);
                        assert("" @ =~= Seq::<char>::empty()) by {
                            reveal_strlit("");
                        }
                        Job::settled(request, options, held, next.0, next.1, "", Ghost(before))
                    },
                    Event::Begin => (
                        Job { request, options, stage, menu: Some(held), section, item },
                        Action::Nothing,
                    ),
                },
                // A job that waits for the page of an item holds its menu.
                None => (
                    Job { request, options, stage: Stage::Done, menu: None, section: 0, item: 0 },
                    Action::Nothing,
                ),
            },
            Stage::Done => (Job { request, options, stage, menu, section, item }, Action::Nothing),
        }
    }
}

} // verus!
