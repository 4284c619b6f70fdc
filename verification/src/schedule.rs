//! Schedule reading and evaluation: which layouts play at a given instant.

use vstd::prelude::*;
use crate::xml::{XmlNode, FieldError, attr_of, attr_i32, attr_i64, has_tag, child_of};

verus! {

/// The format of the instants in a schedule document.
pub const TIME_FMT: &'static str = "[year]-[month]-[day] [hour]:[minute]:[second]";

/// The instant, in nanoseconds since the Unix epoch, that `text` denotes as a
/// date and time in `format` (a `time` format description) read in the UTC
/// offset of `offset_seconds` seconds; `None` where it does not parse.
pub uninterp spec fn datetime_nanos(text: Seq<char>, format: Seq<char>, offset_seconds: i32) -> Option<i128>;

/// Calls `time::format_description::parse` on `format`,
/// `time::PrimitiveDateTime::parse` on `text` with it,
/// `time::UtcOffset::from_whole_seconds`, `PrimitiveDateTime::assume_offset` and
/// `OffsetDateTime::unix_timestamp_nanos`; the result is named by `datetime_nanos`.
#[verifier::external_body]
fn parse_datetime_nanos(text: &str, format: &str, offset_seconds: i32) -> (r: Option<i128>)
    ensures
        r == datetime_nanos(text@, format@, offset_seconds),
{
    let items = time::format_description::parse(format).ok()?;
    let offset = time::UtcOffset::from_whole_seconds(offset_seconds).ok()?;
    let t = time::PrimitiveDateTime::parse(text, &items).ok()?;
    Some(t.assume_offset(offset).unix_timestamp_nanos())
}

/// Calls `time::UtcOffset::current_local_offset` and `UtcOffset::whole_seconds`:
/// the machine's UTC offset now, where it can be determined. Nothing is
/// stated of the value, which depends on the machine and the time.
#[verifier::external_body]
fn local_offset_seconds() -> Option<i32> {
    time::UtcOffset::current_local_offset().ok().map(|o| o.whole_seconds())
}

/// Calls `time::OffsetDateTime::now_utc` and `unix_timestamp_nanos`: the current
/// instant. Nothing is stated of the value, which depends on the clock.
#[verifier::external_body]
fn now_nanos() -> i128 {
    time::OffsetDateTime::now_utc().unix_timestamp_nanos()
}

/// The identifier of a layout in the CMS.
pub type LayoutId = i64;

/// A daypart: a recurring window, on some days of the week and between two
/// times of day, in which a layout plays.
#[derive(Debug)]
pub struct DayPart {
    pub layout_id: LayoutId,
    pub priority: i32,
    /// Days of week on which the daypart is active (1 = Monday, 7 = Sunday).
    pub days_of_week: Vec<u8>,
    /// Start time as (hour, minute).
    pub start_time: (u8, u8),
    /// End time as (hour, minute).
    pub end_time: (u8, u8),
}

/// A campaign: layouts that share a priority and a time window. Instants are
/// nanoseconds since the Unix epoch.
#[derive(Debug, Clone)]
pub struct Campaign {
    pub id: i64,
    pub priority: i32,
    pub from: i128,
    pub to: i128,
    pub layouts: Vec<LayoutId>,
}

/// A standalone layout with its own priority and time window.
#[derive(Debug, Clone, Copy)]
pub struct LayoutEntry {
    pub layout_id: LayoutId,
    pub priority: i32,
    pub from: i128,
    pub to: i128,
}

/// A schedule item: a campaign or a standalone layout.
#[derive(Debug, Clone)]
pub enum ScheduleItem {
    Campaign(Campaign),
    StandaloneLayout(LayoutEntry),
}

/// The schedule: a default layout, the scheduled items in document order, and
/// dayparts.
#[derive(Debug)]
pub struct Schedule {
    pub default: Option<LayoutId>,
    pub items: Vec<ScheduleItem>,
    pub dayparts: Vec<DayPart>,
}

/// Why a schedule document could not be read.
#[derive(Debug, Clone, Copy)]
pub enum ScheduleError {
    /// An attribute that is missing or does not parse as a number.
    Field(FieldError),
    MissingCampaignFrom,
    MissingCampaignTo,
    InvalidCampaignFrom,
    InvalidCampaignTo,
    MissingLayoutFrom,
    MissingLayoutTo,
    InvalidLayoutFrom,
    InvalidLayoutTo,
    /// The machine's UTC offset, in which the document's times are read, is unknown.
    UnknownLocalOffset,
}

/// The value of a campaign.
pub struct CampaignView {
    pub id: i64,
    pub priority: i32,
    pub from: i128,
    pub to: i128,
    pub layouts: Seq<LayoutId>,
}

/// The value of a schedule item.
pub enum ItemView {
    Campaign(CampaignView),
    StandaloneLayout(LayoutEntry),
}

/// The value of a daypart.
pub struct DayPartView {
    pub layout_id: LayoutId,
    pub priority: i32,
    pub days_of_week: Seq<u8>,
    pub start_time: (u8, u8),
    pub end_time: (u8, u8),
}

/// The value of a schedule.
pub struct ScheduleView {
    pub default: Option<LayoutId>,
    pub items: Seq<ItemView>,
    pub dayparts: Seq<DayPartView>,
}

impl View for Campaign {
    type V = CampaignView;

    open spec fn view(&self) -> CampaignView {
        CampaignView {
            id: self.id,
            priority: self.priority,
            from: self.from,
            to: self.to,
            layouts: self.layouts@,
        }
    }
}

impl View for ScheduleItem {
    type V = ItemView;

    open spec fn view(&self) -> ItemView {
        match self {
            ScheduleItem::Campaign(c) => ItemView::Campaign(c@),
            ScheduleItem::StandaloneLayout(l) => ItemView::StandaloneLayout(*l),
        }
    }
}

impl View for DayPart {
    type V = DayPartView;

    open spec fn view(&self) -> DayPartView {
        DayPartView {
            layout_id: self.layout_id,
            priority: self.priority,
            days_of_week: self.days_of_week@,
            start_time: self.start_time,
            end_time: self.end_time,
        }
    }
}

/// The values of a list of items.
pub open spec fn items_view(items: Seq<ScheduleItem>) -> Seq<ItemView> {
    items.map_values(|i: ScheduleItem| i@)
}

impl View for Schedule {
    type V = ScheduleView;

    open spec fn view(&self) -> ScheduleView {
        ScheduleView {
            default: self.default,
            items: items_view(self.items@),
            dayparts: self.dayparts@.map_values(|d: DayPart| d@),
        }
    }
}

/// Whether the time of day `a` is not after `b` (hours, then minutes).
pub open spec fn time_le(a: (u8, u8), b: (u8, u8)) -> bool {
    a.0 < b.0 || (a.0 == b.0 && a.1 <= b.1)
}

/// Whether `time` lies in the window from `start` to `end`, both included; a
/// window whose start is after its end runs across midnight.
pub open spec fn time_in_range(time: (u8, u8), start: (u8, u8), end: (u8, u8)) -> bool {
    if time_le(start, end) {
        time_le(start, time) && time_le(time, end)
    } else {
        time_le(start, time) || time_le(time, end)
    }
}

/// Checks whether a time of day falls within a window, handling midnight crossing.
pub fn is_time_in_range(time: (u8, u8), start: (u8, u8), end: (u8, u8)) -> (r: bool)
    ensures
        r == time_in_range(time, start, end),
{
    let start_le_end = start.0 < end.0 || (start.0 == end.0 && start.1 <= end.1);
    let after_start = start.0 < time.0 || (start.0 == time.0 && start.1 <= time.1);
    let before_end = time.0 < end.0 || (time.0 == end.0 && time.1 <= end.1);
    if start_le_end {
        after_start && before_end
    } else {
        after_start || before_end
    }
}

/// A window that runs across midnight holds exactly the times that do not lie
/// strictly between its end and its start.
pub proof fn law_midnight_window(time: (u8, u8), start: (u8, u8), end: (u8, u8))
    requires
        !time_le(start, end),
    ensures
        time_in_range(time, start, end) <==> !(!time_le(time, end) && !time_le(start, time)),
{
}

/// A window whose start is not after its end holds the times between them.
pub proof fn law_daytime_window(time: (u8, u8), start: (u8, u8), end: (u8, u8))
    requires
        time_le(start, end),
    ensures
        time_in_range(time, start, end) <==> (time_le(start, time) && time_le(time, end)),
{
}

impl DayPart {
    /// Whether the daypart is active on `weekday` (1 = Monday) at `hour`:`minute`.
    pub fn is_active_at(&self, weekday: u8, hour: u8, minute: u8) -> (r: bool)
        ensures
            r == (self.days_of_week@.contains(weekday) && time_in_range(
                (hour, minute),
                self.start_time,
                self.end_time,
            )),
    {
        let mut found = false;
        let mut i: usize = 0;
        while i < self.days_of_week.len()
            invariant
                i <= self.days_of_week@.len(),
                found == (exists|j: int| 0 <= j < i && self.days_of_week@[j] == weekday),
            decreases self.days_of_week@.len() - i,
        {
            if self.days_of_week[i] == weekday {
                found = true;
            }
            i = i + 1;
        }
        if !found {
            return false;
        }
        is_time_in_range((hour, minute), self.start_time, self.end_time)
    }

    /// The daypart's priority.
    pub fn priority(&self) -> (r: i32)
        ensures
            r == self.priority,
    {
        self.priority
    }

    /// The layouts the daypart plays: its one layout.
    pub fn layouts(&self) -> (r: Vec<LayoutId>)
        ensures
            r@ == seq![self.layout_id],
    {
        let mut v: Vec<LayoutId> = Vec::new();
        v.push(self.layout_id);
        v
    }
}

/// The priority of an item.
pub open spec fn item_priority(i: ItemView) -> i32 {
    match i {
        ItemView::Campaign(c) => c.priority,
        ItemView::StandaloneLayout(l) => l.priority,
    }
}

/// Whether an item's time window, both ends included, holds the instant `now`.
pub open spec fn item_active(i: ItemView, now: i128) -> bool {
    match i {
        ItemView::Campaign(c) => c.from <= now && now <= c.to,
        ItemView::StandaloneLayout(l) => l.from <= now && now <= l.to,
    }
}

/// The layouts of an item: a campaign's in order, or the one standalone layout.
pub open spec fn item_layouts(i: ItemView) -> Seq<LayoutId> {
    match i {
        ItemView::Campaign(c) => c.layouts,
        ItemView::StandaloneLayout(l) => seq![l.layout_id],
    }
}

/// The highest priority among the items active at `now`, if any is.
pub open spec fn top_priority(items: Seq<ItemView>, now: i128) -> Option<i32>
    decreases items.len(),
{
    if items.len() == 0 {
        None
    } else {
        let prev = top_priority(items.drop_last(), now);
        let last = items.last();
        if item_active(last, now) {
            match prev {
                Some(p) => if p >= item_priority(last) {
                    Some(p)
                } else {
                    Some(item_priority(last))
                },
                None => Some(item_priority(last)),
            }
        } else {
            prev
        }
    }
}

/// The layouts of the items active at `now` whose priority is `p`, item after
/// item in order.
pub open spec fn layouts_at_priority(items: Seq<ItemView>, now: i128, p: i32) -> Seq<LayoutId>
    decreases items.len(),
{
    if items.len() == 0 {
        Seq::empty()
    } else {
        let prev = layouts_at_priority(items.drop_last(), now, p);
        let last = items.last();
        if item_active(last, now) && item_priority(last) == p {
            prev + item_layouts(last)
        } else {
            prev
        }
    }
}

/// The layouts a schedule plays at `now`: those of the active items of the
/// highest priority, or, where no item is active, the default layout if any.
pub open spec fn scheduled_layouts(s: ScheduleView, now: i128) -> Seq<LayoutId> {
    match top_priority(s.items, now) {
        Some(p) => layouts_at_priority(s.items, now, p),
        None => match s.default {
            Some(d) => seq![d],
            None => Seq::empty(),
        },
    }
}

/// The layout ids in the `file` attributes of the `layout` elements among
/// `nodes`, in order; the first such attribute that is missing or invalid
/// gives the error.
pub open spec fn layout_files(nodes: Seq<XmlNode>) -> Result<Seq<LayoutId>, ScheduleError>
    decreases nodes.len(),
{
    if nodes.len() == 0 {
        Ok(Seq::empty())
    } else {
        match layout_files(nodes.drop_last()) {
            Err(e) => Err(e),
            Ok(prev) => if has_tag(nodes.last(), "layout"@) {
                match attr_i64(nodes.last(), "file") {
                    Ok(f) => Ok(prev.push(f)),
                    Err(e) => Err(ScheduleError::Field(e)),
                }
            } else {
                Ok(prev)
            },
        }
    }
}

/// A `campaign` element read: its id, priority, window and layouts; `None`
/// where it holds no layout.
pub open spec fn campaign_of(c: XmlNode, offset: i32) -> Result<Option<CampaignView>, ScheduleError> {
    match attr_i64(c, "id") {
        Err(e) => Err(ScheduleError::Field(e)),
        Ok(id) => match attr_i32(c, "priority") {
            Err(e) => Err(ScheduleError::Field(e)),
            Ok(priority) => match attr_of(c, "fromdt"@) {
                None => Err(ScheduleError::MissingCampaignFrom),
                Some(from_text) => match attr_of(c, "todt"@) {
                    None => Err(ScheduleError::MissingCampaignTo),
                    Some(to_text) => match datetime_nanos(from_text, TIME_FMT@, offset) {
                        None => Err(ScheduleError::InvalidCampaignFrom),
                        Some(from) => match datetime_nanos(to_text, TIME_FMT@, offset) {
                            None => Err(ScheduleError::InvalidCampaignTo),
                            Some(to) => match layout_files(c.children@) {
                                Err(e) => Err(e),
                                Ok(layouts) => if layouts.len() == 0 {
                                    Ok(None)
                                } else {
                                    Ok(Some(CampaignView { id, priority, from, to, layouts }))
                                },
                            },
                        },
                    },
                },
            },
        },
    }
}

/// A standalone `layout` element read: its layout id, priority and window.
pub open spec fn entry_of(l: XmlNode, offset: i32) -> Result<LayoutEntry, ScheduleError> {
    match attr_i64(l, "file") {
        Err(e) => Err(ScheduleError::Field(e)),
        Ok(layout_id) => match attr_i32(l, "priority") {
            Err(e) => Err(ScheduleError::Field(e)),
            Ok(priority) => match attr_of(l, "fromdt"@) {
                None => Err(ScheduleError::MissingLayoutFrom),
                Some(from_text) => match attr_of(l, "todt"@) {
                    None => Err(ScheduleError::MissingLayoutTo),
                    Some(to_text) => match datetime_nanos(from_text, TIME_FMT@, offset) {
                        None => Err(ScheduleError::InvalidLayoutFrom),
                        Some(from) => match datetime_nanos(to_text, TIME_FMT@, offset) {
                            None => Err(ScheduleError::InvalidLayoutTo),
                            Some(to) => Ok(LayoutEntry { layout_id, priority, from, to }),
                        },
                    },
                },
            },
        },
    }
}

/// The campaigns among `nodes` that hold layouts, in order.
pub open spec fn campaigns_in(nodes: Seq<XmlNode>, offset: i32) -> Result<Seq<ItemView>, ScheduleError>
    decreases nodes.len(),
{
    if nodes.len() == 0 {
        Ok(Seq::empty())
    } else {
        match campaigns_in(nodes.drop_last(), offset) {
            Err(e) => Err(e),
            Ok(prev) => if has_tag(nodes.last(), "campaign"@) {
                match campaign_of(nodes.last(), offset) {
                    Err(e) => Err(e),
                    Ok(None) => Ok(prev),
                    Ok(Some(c)) => Ok(prev.push(ItemView::Campaign(c))),
                }
            } else {
                Ok(prev)
            },
        }
    }
}

/// The standalone layouts among `nodes`: the elements whose local name is
/// `layout`, whatever their namespace, in order.
pub open spec fn standalones_in(nodes: Seq<XmlNode>, offset: i32) -> Result<Seq<ItemView>, ScheduleError>
    decreases nodes.len(),
{
    if nodes.len() == 0 {
        Ok(Seq::empty())
    } else {
        match standalones_in(nodes.drop_last(), offset) {
            Err(e) => Err(e),
            Ok(prev) => if nodes.last().name@ == "layout"@ {
                match entry_of(nodes.last(), offset) {
                    Err(e) => Err(e),
                    Ok(l) => Ok(prev.push(ItemView::StandaloneLayout(l))),
                }
            } else {
                Ok(prev)
            },
        }
    }
}

/// The default layout: the `file` of the first `default` child, if any.
pub open spec fn default_of(tree: XmlNode) -> Result<Option<LayoutId>, ScheduleError> {
    match child_of(tree, "default"@) {
        None => Ok(None),
        Some(d) => match attr_i64(d, "file") {
            Ok(f) => Ok(Some(f)),
            Err(e) => Err(ScheduleError::Field(e)),
        },
    }
}

/// A `schedule` document read with its times in the UTC offset `offset`
/// (seconds): the campaigns that hold layouts, then the standalone layouts,
/// then the default; the first fault in that order is the error.
pub open spec fn parse_schedule(tree: XmlNode, offset: i32) -> Result<ScheduleView, ScheduleError> {
    match campaigns_in(tree.children@, offset) {
        Err(e) => Err(e),
        Ok(campaigns) => match standalones_in(tree.children@, offset) {
            Err(e) => Err(e),
            Ok(standalones) => match default_of(tree) {
                Err(e) => Err(e),
                Ok(default) => Ok(
                    ScheduleView { default, items: campaigns + standalones, dayparts: Seq::empty() },
                ),
            },
        },
    }
}

/// `top_priority` is the highest priority of the active items, and is absent
/// exactly when no item is active.
proof fn lemma_top_priority(items: Seq<ItemView>, now: i128)
    ensures
        top_priority(items, now) is None <==> (forall|j: int|
            0 <= j < items.len() ==> !item_active(#[trigger] items[j], now)),
        top_priority(items, now) matches Some(p) ==> {
            &&& exists|i: int|
                0 <= i < items.len() && item_active(#[trigger] items[i], now) && item_priority(items[i])
                    == p
            &&& forall|j: int|
                0 <= j < items.len() && item_active(#[trigger] items[j], now) ==> item_priority(
                    items[j],
                ) <= p
        },
    decreases items.len(),
{
    if items.len() > 0 {
        let prev = items.drop_last();
        lemma_top_priority(prev, now);
        assert forall|j: int| 0 <= j < prev.len() implies prev[j] == items[j] by {}
        if top_priority(items, now) is None {
            assert forall|j: int| 0 <= j < items.len() implies !item_active(#[trigger] items[j], now) by {
                if j < prev.len() {
                    assert(prev[j] == items[j]);
                }
            }
        }
        if let Some(p) = top_priority(items, now) {
            if item_active(items.last(), now) && item_priority(items.last()) == p {
                assert(item_active(items[items.len() - 1], now));
            } else {
                let i = choose|i: int|
                    0 <= i < prev.len() && item_active(#[trigger] prev[i], now) && item_priority(prev[i])
                        == top_priority(prev, now)->0;
                assert(item_active(items[i], now));
            }
            assert forall|j: int|
                0 <= j < items.len() && item_active(#[trigger] items[j], now) implies item_priority(
                items[j],
            ) <= p by {
                if j < prev.len() {
                    assert(prev[j] == items[j]);
                }
            }
        }
    }
}

/// Every layout in `layouts_at_priority(items, now, p)` belongs to an item
/// active at `now` with priority `p`.
proof fn lemma_layouts_at_priority_source(items: Seq<ItemView>, now: i128, p: i32, x: LayoutId)
    requires
        layouts_at_priority(items, now, p).contains(x),
    ensures
        exists|i: int|
            0 <= i < items.len() && item_active(#[trigger] items[i], now) && item_priority(items[i]) == p
                && item_layouts(items[i]).contains(x),
    decreases items.len(),
{
    let prev = items.drop_last();
    let last = items.last();
    if item_active(last, now) && item_priority(last) == p {
        let k = choose|k: int|
            0 <= k < layouts_at_priority(items, now, p).len() && layouts_at_priority(items, now, p)[k]
                == x;
        let a = layouts_at_priority(prev, now, p);
        if k < a.len() {
            assert(a[k] == x);
            lemma_layouts_at_priority_source(prev, now, p, x);
            let i = choose|i: int|
                0 <= i < prev.len() && item_active(#[trigger] prev[i], now) && item_priority(prev[i]) == p
                    && item_layouts(prev[i]).contains(x);
            assert(prev[i] == items[i]);
        } else {
            assert(item_layouts(last)[k - a.len()] == x);
            assert(items[items.len() - 1] == last);
        }
    } else {
        lemma_layouts_at_priority_source(prev, now, p, x);
        let i = choose|i: int|
            0 <= i < prev.len() && item_active(#[trigger] prev[i], now) && item_priority(prev[i]) == p
                && item_layouts(prev[i]).contains(x);
        assert(prev[i] == items[i]);
    }
}

/// Where `i` is the only item active at `now` with priority `p`,
/// `layouts_at_priority` is that item's layouts.
proof fn lemma_layouts_at_priority_single(items: Seq<ItemView>, now: i128, p: i32, i: int)
    requires
        0 <= i < items.len(),
        item_active(items[i], now),
        item_priority(items[i]) == p,
        forall|j: int|
            0 <= j < items.len() && j != i && item_active(#[trigger] items[j], now) ==> item_priority(
                items[j],
            ) != p,
    ensures
        layouts_at_priority(items, now, p) == item_layouts(items[i]),
    decreases items.len(),
{
    let prev = items.drop_last();
    if i < items.len() - 1 {
        assert forall|j: int|
            0 <= j < prev.len() && j != i && item_active(#[trigger] prev[j], now) implies item_priority(
            prev[j],
        ) != p by {
            assert(prev[j] == items[j]);
        }
        assert(prev[i] == items[i]);
        lemma_layouts_at_priority_single(prev, now, p, i);
        assert(items.last() == items[items.len() - 1]);
    } else {
        lemma_layouts_at_priority_none(prev, now, p);
        assert(layouts_at_priority(items, now, p) =~= Seq::<LayoutId>::empty() + item_layouts(items[i]));
    }
}

/// Where no item is active at `now` with priority `p`, `layouts_at_priority` is empty.
proof fn lemma_layouts_at_priority_none(items: Seq<ItemView>, now: i128, p: i32)
    requires
        forall|j: int|
            0 <= j < items.len() && item_active(#[trigger] items[j], now) ==> item_priority(items[j]) != p,
    ensures
        layouts_at_priority(items, now, p) == Seq::<LayoutId>::empty(),
    decreases items.len(),
{
    if items.len() > 0 {
        let prev = items.drop_last();
        assert forall|j: int|
            0 <= j < prev.len() && item_active(#[trigger] prev[j], now) implies item_priority(prev[j]) != p by {
            assert(prev[j] == items[j]);
        }
        lemma_layouts_at_priority_none(prev, now, p);
        assert(items.last() == items[items.len() - 1]);
    }
}

/// Where no item's window, from its `from` to its `to` instant with both ends
/// included, holds `now`, the schedule plays its default layout, or nothing
/// where it has none: an item that has not started yet, or has ended, plays
/// nothing.
pub proof fn law_outside_every_window_plays_default(s: ScheduleView, now: i128)
    requires
        forall|j: int|
            0 <= j < s.items.len() ==> !(match #[trigger] s.items[j] {
                ItemView::Campaign(c) => c.from <= now && c.to >= now,
                ItemView::StandaloneLayout(l) => l.from <= now && l.to >= now,
            }),
    ensures
        scheduled_layouts(s, now) == (match s.default {
            Some(d) => seq![d],
            None => Seq::<LayoutId>::empty(),
        }),
{
    lemma_top_priority(s.items, now);
}

/// Every layout played at `now` is a layout of a campaign or standalone
/// layout whose window holds `now` (`from <= now <= to`), or, where no item's
/// window holds `now`, the default layout.
pub proof fn law_played_layouts_come_from_current_items(s: ScheduleView, now: i128, x: LayoutId)
    requires
        scheduled_layouts(s, now).contains(x),
    ensures
        (exists|i: int|
            0 <= i < s.items.len() && match #[trigger] s.items[i] {
                ItemView::Campaign(c) => c.from <= now && c.to >= now && c.layouts.contains(x),
                ItemView::StandaloneLayout(l) => l.from <= now && l.to >= now && l.layout_id == x,
            }) || ((forall|j: int|
            0 <= j < s.items.len() ==> !(match #[trigger] s.items[j] {
                ItemView::Campaign(c) => c.from <= now && c.to >= now,
                ItemView::StandaloneLayout(l) => l.from <= now && l.to >= now,
            })) && s.default == Some(x)),
{
    lemma_top_priority(s.items, now);
    match top_priority(s.items, now) {
        Some(p) => {
            lemma_layouts_at_priority_source(s.items, now, p, x);
            let i = choose|i: int|
                0 <= i < s.items.len() && item_active(#[trigger] s.items[i], now) && item_priority(s.items[i])
                    == p && item_layouts(s.items[i]).contains(x);
            match s.items[i] {
                ItemView::Campaign(c) => {},
                ItemView::StandaloneLayout(l) => {
                    assert(item_layouts(s.items[i]) == seq![l.layout_id]);
                    assert(seq![l.layout_id][0] == l.layout_id);
                },
            }
        },
        None => {
            match s.default {
                Some(d) => {
                    assert(seq![d][0] == d);
                },
                None => {
                    assert(Seq::<LayoutId>::empty().len() == 0);
                },
            }
        },
    }
}

/// Where no item is active at `now`, the schedule plays its default layout,
/// or nothing where it has none.
pub proof fn law_idle_schedule_plays_default(s: ScheduleView, now: i128)
    requires
        forall|j: int| 0 <= j < s.items.len() ==> !item_active(#[trigger] s.items[j], now),
    ensures
        scheduled_layouts(s, now) == (match s.default {
            Some(d) => seq![d],
            None => Seq::<LayoutId>::empty(),
        }),
{
    lemma_top_priority(s.items, now);
}

/// Where some item is active at `now`, the default layout is not played for
/// that reason, and every layout played belongs to an active item whose
/// priority no active item exceeds.
pub proof fn law_only_top_priority_plays(s: ScheduleView, now: i128, x: LayoutId)
    requires
        exists|j: int| 0 <= j < s.items.len() && item_active(#[trigger] s.items[j], now),
        scheduled_layouts(s, now).contains(x),
    ensures
        exists|i: int|
            0 <= i < s.items.len() && item_active(#[trigger] s.items[i], now) && item_layouts(
                s.items[i],
            ).contains(x) && (forall|j: int|
                0 <= j < s.items.len() && item_active(#[trigger] s.items[j], now) ==> item_priority(
                    s.items[j],
                ) <= item_priority(s.items[i])),
{
    lemma_top_priority(s.items, now);
    let p = top_priority(s.items, now)->0;
    lemma_layouts_at_priority_source(s.items, now, p, x);
}

/// Every layout of every active item of the highest priority is played.
pub proof fn law_top_priority_items_all_play(s: ScheduleView, now: i128, i: int, x: LayoutId)
    requires
        0 <= i < s.items.len(),
        item_active(s.items[i], now),
        forall|j: int|
            0 <= j < s.items.len() && item_active(#[trigger] s.items[j], now) ==> item_priority(
                s.items[j],
            ) <= item_priority(s.items[i]),
        item_layouts(s.items[i]).contains(x),
    ensures
        scheduled_layouts(s, now).contains(x),
{
    lemma_top_priority(s.items, now);
    lemma_layouts_at_priority_covers(s.items, now, item_priority(s.items[i]), i, x);
}

/// Every layout of an item active at `now` with priority `p` is in
/// `layouts_at_priority(items, now, p)`.
proof fn lemma_layouts_at_priority_covers(items: Seq<ItemView>, now: i128, p: i32, i: int, x: LayoutId)
    requires
        0 <= i < items.len(),
        item_active(items[i], now),
        item_priority(items[i]) == p,
        item_layouts(items[i]).contains(x),
    ensures
        layouts_at_priority(items, now, p).contains(x),
    decreases items.len(),
{
    let prev = items.drop_last();
    let k = choose|k: int| 0 <= k < item_layouts(items[i]).len() && item_layouts(items[i])[k] == x;
    if i < items.len() - 1 {
        assert(prev[i] == items[i]);
        lemma_layouts_at_priority_covers(prev, now, p, i, x);
        let m = choose|m: int|
            0 <= m < layouts_at_priority(prev, now, p).len() && layouts_at_priority(prev, now, p)[m] == x;
        let all = layouts_at_priority(items, now, p);
        if item_active(items.last(), now) && item_priority(items.last()) == p {
            assert(all[m] == x);
        } else {
            assert(all[m] == x);
        }
    } else {
        let a = layouts_at_priority(prev, now, p);
        let all = layouts_at_priority(items, now, p);
        assert(items.last() == items[i]);
        assert(all[a.len() + k] == x);
    }
}

/// Where one active item alone has the highest priority, the schedule plays
/// exactly that item's layouts, in their order.
pub proof fn law_single_top_item_plays_in_order(s: ScheduleView, now: i128, i: int)
    requires
        0 <= i < s.items.len(),
        item_active(s.items[i], now),
        forall|j: int|
            0 <= j < s.items.len() && j != i && item_active(#[trigger] s.items[j], now) ==> item_priority(
                s.items[j],
            ) < item_priority(s.items[i]),
    ensures
        scheduled_layouts(s, now) == item_layouts(s.items[i]),
{
    lemma_top_priority(s.items, now);
    let p = top_priority(s.items, now)->0;
    assert(item_priority(s.items[i]) <= p);
    let w = choose|w: int|
        0 <= w < s.items.len() && item_active(#[trigger] s.items[w], now) && item_priority(s.items[w]) == p;
    if w != i {
        assert(item_priority(s.items[w]) < item_priority(s.items[i]));
    }
    lemma_layouts_at_priority_single(s.items, now, p, i);
}

/// Every campaign in the campaigns read from `nodes` holds a layout.
proof fn lemma_campaigns_nonempty(nodes: Seq<XmlNode>, offset: i32)
    ensures
        campaigns_in(nodes, offset) matches Ok(items) ==> forall|i: int|
            0 <= i < items.len() ==> (#[trigger] items[i] matches ItemView::Campaign(c) && c.layouts.len() > 0),
    decreases nodes.len(),
{
    if nodes.len() > 0 {
        lemma_campaigns_nonempty(nodes.drop_last(), offset);
    }
}

/// The standalone items read from `nodes` are all standalone layouts.
proof fn lemma_standalones_only(nodes: Seq<XmlNode>, offset: i32)
    ensures
        standalones_in(nodes, offset) matches Ok(items) ==> forall|i: int|
            0 <= i < items.len() ==> (#[trigger] items[i] matches ItemView::StandaloneLayout(_)),
    decreases nodes.len(),
{
    if nodes.len() > 0 {
        lemma_standalones_only(nodes.drop_last(), offset);
    }
}

/// A campaign without layouts is left out: every campaign of a schedule that
/// was read holds at least one layout.
pub proof fn law_read_campaigns_hold_layouts(tree: XmlNode, offset: i32, i: int)
    requires
        parse_schedule(tree, offset) is Ok,
        0 <= i < parse_schedule(tree, offset)->Ok_0.items.len(),
    ensures
        parse_schedule(tree, offset)->Ok_0.items[i] matches ItemView::Campaign(c) ==> c.layouts.len() > 0,
{
    lemma_campaigns_nonempty(tree.children@, offset);
    lemma_standalones_only(tree.children@, offset);
    let cs = campaigns_in(tree.children@, offset)->Ok_0;
    let ls = standalones_in(tree.children@, offset)->Ok_0;
    let items = parse_schedule(tree, offset)->Ok_0.items;
    assert(items == cs + ls);
    if i < cs.len() {
        assert(items[i] == cs[i]);
    } else {
        assert(items[i] == ls[i - cs.len()]);
    }
}

/// Where a fold over a prefix of `nodes` fails, the fold over `nodes` fails alike.
proof fn lemma_layout_files_err(nodes: Seq<XmlNode>, k: int)
    requires
        0 <= k <= nodes.len(),
        layout_files(nodes.take(k)) is Err,
    ensures
        layout_files(nodes) == layout_files(nodes.take(k)),
    decreases nodes.len() - k,
{
    if k < nodes.len() {
        assert(nodes.take(k + 1).drop_last() =~= nodes.take(k));
        lemma_layout_files_err(nodes, k + 1);
    } else {
        assert(nodes.take(k) =~= nodes);
    }
}

proof fn lemma_campaigns_err(nodes: Seq<XmlNode>, offset: i32, k: int)
    requires
        0 <= k <= nodes.len(),
        campaigns_in(nodes.take(k), offset) is Err,
    ensures
        campaigns_in(nodes, offset) == campaigns_in(nodes.take(k), offset),
    decreases nodes.len() - k,
{
    if k < nodes.len() {
        assert(nodes.take(k + 1).drop_last() =~= nodes.take(k));
        lemma_campaigns_err(nodes, offset, k + 1);
    } else {
        assert(nodes.take(k) =~= nodes);
    }
}

proof fn lemma_standalones_err(nodes: Seq<XmlNode>, offset: i32, k: int)
    requires
        0 <= k <= nodes.len(),
        standalones_in(nodes.take(k), offset) is Err,
    ensures
        standalones_in(nodes, offset) == standalones_in(nodes.take(k), offset),
    decreases nodes.len() - k,
{
    if k < nodes.len() {
        assert(nodes.take(k + 1).drop_last() =~= nodes.take(k));
        lemma_standalones_err(nodes, offset, k + 1);
    } else {
        assert(nodes.take(k) =~= nodes);
    }
}

/// Reads the layout ids of the `layout` children of a campaign.
fn read_layout_files(nodes: &Vec<XmlNode>) -> (r: Result<Vec<LayoutId>, ScheduleError>)
    ensures
        match r {
            Ok(v) => layout_files(nodes@) == Ok::<Seq<LayoutId>, ScheduleError>(v@),
            Err(e) => layout_files(nodes@) == Err::<Seq<LayoutId>, ScheduleError>(e),
        },
{
    let mut out: Vec<LayoutId> = Vec::new();
    let mut i: usize = 0;
    while i < nodes.len()
        invariant
            i <= nodes@.len(),
            layout_files(nodes@.take(i as int)) == Ok::<Seq<LayoutId>, ScheduleError>(out@),
        decreases nodes@.len() - i,
    {
        let n = &nodes[i];
        assert(nodes@.take(i + 1).drop_last() =~= nodes@.take(i as int));
        assert(nodes@.take(i + 1).last() == *n);
        if n.has_tag("layout") {
            match n.parse_attr_i64("file") {
                Ok(f) => {
                    out.push(f);
                },
                Err(e) => {
                    proof {
                        lemma_layout_files_err(nodes@, i + 1);
                    }
                    return Err(ScheduleError::Field(e));
                },
            }
        }
        i = i + 1;
    }
    assert(nodes@.take(i as int) =~= nodes@);
    Ok(out)
}

/// Reads a `campaign` element.
fn read_campaign(c: &XmlNode, offset: i32) -> (r: Result<Option<Campaign>, ScheduleError>)
    ensures
        match r {
            Ok(Some(v)) => campaign_of(*c, offset) == Ok::<Option<CampaignView>, ScheduleError>(Some(v@)),
            Ok(None) => campaign_of(*c, offset) == Ok::<Option<CampaignView>, ScheduleError>(None),
            Err(e) => campaign_of(*c, offset) == Err::<Option<CampaignView>, ScheduleError>(e),
        },
{
    let id = match c.parse_attr_i64("id") {
        Ok(v) => v,
        Err(e) => { return Err(ScheduleError::Field(e)); },
    };
    let priority = match c.parse_attr_i32("priority") {
        Ok(v) => v,
        Err(e) => { return Err(ScheduleError::Field(e)); },
    };
    let from_text = match c.get_attr("fromdt") {
        Some(t) => t,
        None => { return Err(ScheduleError::MissingCampaignFrom); },
    };
    let to_text = match c.get_attr("todt") {
        Some(t) => t,
        None => { return Err(ScheduleError::MissingCampaignTo); },
    };
    let from = match parse_datetime_nanos(from_text, TIME_FMT, offset) {
        Some(t) => t,
        None => { return Err(ScheduleError::InvalidCampaignFrom); },
    };
    let to = match parse_datetime_nanos(to_text, TIME_FMT, offset) {
        Some(t) => t,
        None => { return Err(ScheduleError::InvalidCampaignTo); },
    };
    let layouts = match read_layout_files(&c.children) {
        Ok(v) => v,
        Err(e) => { return Err(e); },
    };
    if layouts.len() == 0 {
        Ok(None)
    } else {
        Ok(Some(Campaign { id, priority, from, to, layouts }))
    }
}

/// Reads a standalone `layout` element.
fn read_entry(l: &XmlNode, offset: i32) -> (r: Result<LayoutEntry, ScheduleError>)
    ensures
        r == entry_of(*l, offset),
{
    let layout_id = match l.parse_attr_i64("file") {
        Ok(v) => v,
        Err(e) => { return Err(ScheduleError::Field(e)); },
    };
    let priority = match l.parse_attr_i32("priority") {
        Ok(v) => v,
        Err(e) => { return Err(ScheduleError::Field(e)); },
    };
    let from_text = match l.get_attr("fromdt") {
        Some(t) => t,
        None => { return Err(ScheduleError::MissingLayoutFrom); },
    };
    let to_text = match l.get_attr("todt") {
        Some(t) => t,
        None => { return Err(ScheduleError::MissingLayoutTo); },
    };
    let from = match parse_datetime_nanos(from_text, TIME_FMT, offset) {
        Some(t) => t,
        None => { return Err(ScheduleError::InvalidLayoutFrom); },
    };
    let to = match parse_datetime_nanos(to_text, TIME_FMT, offset) {
        Some(t) => t,
        None => { return Err(ScheduleError::InvalidLayoutTo); },
    };
    Ok(LayoutEntry { layout_id, priority, from, to })
}

impl ScheduleItem {
    /// The priority of this item (campaign or standalone layout).
    fn priority(&self) -> (r: i32)
        ensures
            r == item_priority(self@),
    {
        match self {
            ScheduleItem::Campaign(c) => c.priority,
            ScheduleItem::StandaloneLayout(l) => l.priority,
        }
    }

    /// Whether this item is active at the instant `now`.
    fn is_active(&self, now: i128) -> (r: bool)
        ensures
            r == item_active(self@, now),
    {
        match self {
            ScheduleItem::Campaign(c) => c.from <= now && now <= c.to,
            ScheduleItem::StandaloneLayout(l) => l.from <= now && now <= l.to,
        }
    }

    /// All layouts of this item: a campaign's, or the one standalone layout.
    fn layouts(&self) -> (r: Vec<LayoutId>)
        ensures
            r@ == item_layouts(self@),
    {
        match self {
            ScheduleItem::Campaign(c) => {
                let v = c.layouts.clone();
                assert(v@ =~= c.layouts@);
                v
            },
            ScheduleItem::StandaloneLayout(l) => {
                let mut v: Vec<LayoutId> = Vec::new();
                v.push(l.layout_id);
                v
            },
        }
    }
}

impl Default for Schedule {
    /// The empty schedule: no default, no items, no dayparts.
    fn default() -> (r: Schedule)
        ensures
            r@ == (ScheduleView { default: None, items: Seq::empty(), dayparts: Seq::empty() }),
    {
        let r = Schedule { default: None, items: Vec::new(), dayparts: Vec::new() };
        assert(r@.items =~= Seq::<ItemView>::empty());
        assert(r@.dayparts =~= Seq::<DayPartView>::empty());
        r
    }
}

impl Schedule {
    /// Reads a `schedule` document whose times are in the UTC offset `offset`
    /// (seconds).
    pub fn parse_with_offset(tree: &XmlNode, offset: i32) -> (r: Result<Schedule, ScheduleError>)
        ensures
            match r {
                Ok(s) => parse_schedule(*tree, offset) == Ok::<ScheduleView, ScheduleError>(s@),
                Err(e) => parse_schedule(*tree, offset) == Err::<ScheduleView, ScheduleError>(e),
            },
    {
        let nodes = &tree.children;
        let mut items: Vec<ScheduleItem> = Vec::new();
        let mut i: usize = 0;
        assert(items_view(items@) =~= Seq::<ItemView>::empty());
        assert(nodes@.take(0) =~= Seq::<XmlNode>::empty());
        while i < nodes.len()
            invariant
                i <= nodes@.len(),
                nodes@ == tree.children@,
                campaigns_in(nodes@.take(i as int), offset) == Ok::<Seq<ItemView>, ScheduleError>(
                    items_view(items@),
                ),
            decreases nodes@.len() - i,
        {
            let n = &nodes[i];
            assert(nodes@.take(i + 1).drop_last() =~= nodes@.take(i as int));
            assert(nodes@.take(i + 1).last() == *n);
            if n.has_tag("campaign") {
                match read_campaign(n, offset) {
                    Ok(Some(c)) => {
                        let ghost before = items@;
                        items.push(ScheduleItem::Campaign(c));
                        assert(items_view(items@) =~= items_view(before).push(items@.last()@));
                    },
                    Ok(None) => {},
                    Err(e) => {
                        proof {
                            lemma_campaigns_err(nodes@, offset, i + 1);
                        }
                        return Err(e);
                    },
                }
            }
            i = i + 1;
        }
        assert(nodes@.take(i as int) =~= nodes@);
        let ghost campaigns = items_view(items@);
        let mut j: usize = 0;
        let mut standalones: Vec<ScheduleItem> = Vec::new();
        assert(items_view(standalones@) =~= Seq::<ItemView>::empty());
        while j < nodes.len()
            invariant
                j <= nodes@.len(),
                campaigns_in(nodes@, offset) == Ok::<Seq<ItemView>, ScheduleError>(campaigns),
                nodes@ == tree.children@,
                standalones_in(nodes@.take(j as int), offset) == Ok::<Seq<ItemView>, ScheduleError>(
                    items_view(standalones@),
                ),
            decreases nodes@.len() - j,
        {
            let n = &nodes[j];
            assert(nodes@.take(j + 1).drop_last() =~= nodes@.take(j as int));
            assert(nodes@.take(j + 1).last() == *n);
            if crate::text::text_eq(n.name.as_str(), "layout") {
                match read_entry(n, offset) {
                    Ok(l) => {
                        let ghost before = standalones@;
                        standalones.push(ScheduleItem::StandaloneLayout(l));
                        assert(items_view(standalones@) =~= items_view(before).push(
                            standalones@.last()@,
                        ));
                    },
                    Err(e) => {
                        proof {
                            lemma_standalones_err(nodes@, offset, j + 1);
                        }
                        return Err(e);
                    },
                }
            }
            j = j + 1;
        }
        assert(nodes@.take(j as int) =~= nodes@);
        let ghost before = items@;
        let ghost moved = standalones@;
        items.append(&mut standalones);
        assert(items@ =~= before + moved);
        assert(items_view(items@) =~= campaigns + items_view(moved));
        let default = match tree.find("default") {
            None => None,
            Some(d) => match d.parse_attr_i64("file") {
                Ok(f) => Some(f),
                Err(e) => { return Err(ScheduleError::Field(e)); },
            },
        };
        let result = Schedule { default, items, dayparts: Vec::new() };
        assert(result@.dayparts =~= Seq::<DayPartView>::empty());
        assert(default_of(*tree) == Ok::<Option<LayoutId>, ScheduleError>(default));
        Ok(result)
    }

    /// Reads a `schedule` document whose times are in the machine's local UTC
    /// offset; where that offset cannot be determined, gives `UnknownLocalOffset`.
    pub fn parse(tree: XmlNode) -> (r: Result<Schedule, ScheduleError>)
        ensures
            match r {
                Ok(s) => exists|offset: i32| parse_schedule(tree, offset) == Ok::<ScheduleView, ScheduleError>(s@),
                Err(e) => e is UnknownLocalOffset
                    || exists|offset: i32| parse_schedule(tree, offset) == Err::<ScheduleView, ScheduleError>(e),
            },
    {
        match local_offset_seconds() {
            None => Err(ScheduleError::UnknownLocalOffset),
            Some(offset) => Schedule::parse_with_offset(&tree, offset),
        }
    }

    /// The layouts to play now: `layouts_at` the current instant.
    pub fn layouts_now(&self) -> (r: Vec<LayoutId>)
        ensures
            exists|now: i128| r@ == scheduled_layouts(self@, now),
    {
        let now = now_nanos();
        self.layouts_at(now)
    }
    /// The layouts to play at the instant `now` (nanoseconds since the Unix
    /// epoch).
    pub fn layouts_at(&self, now: i128) -> (r: Vec<LayoutId>)
        ensures
            r@ == scheduled_layouts(self@, now),
    {
        let ghost items = items_view(self.items@);
        let n = self.items.len();
        let mut top: Option<i32> = None;
        let mut i: usize = 0;
        while i < n
            invariant
                n == self.items@.len(),
                items == items_view(self.items@),
                i <= n,
                top == top_priority(items.take(i as int), now),
            decreases n - i,
        {
            let item = &self.items[i];
            assert(items.take(i + 1).drop_last() =~= items.take(i as int));
            assert(items.take(i + 1).last() == item@);
            if item.is_active(now) {
                let p = item.priority();
                top = match top {
                    Some(q) => if q >= p { Some(q) } else { Some(p) },
                    None => Some(p),
                };
            }
            i = i + 1;
        }
        assert(items.take(n as int) =~= items);
        match top {
            None => {
                let mut v: Vec<LayoutId> = Vec::new();
                match self.default {
                    Some(d) => {
                        v.push(d);
                    },
                    None => {},
                }
                assert(v@ =~= scheduled_layouts(self@, now));
                v
            },
            Some(p) => {
                let mut out: Vec<LayoutId> = Vec::new();
                let mut j: usize = 0;
                while j < n
                    invariant
                        n == self.items@.len(),
                        items == items_view(self.items@),
                        j <= n,
                        out@ == layouts_at_priority(items.take(j as int), now, p),
                    decreases n - j,
                {
                    let item = &self.items[j];
                    assert(items.take(j + 1).drop_last() =~= items.take(j as int));
                    assert(items.take(j + 1).last() == item@);
                    if item.is_active(now) && item.priority() == p {
                        let mut ls = item.layouts();
                        out.append(&mut ls);
                    }
                    j = j + 1;
                }
                assert(items.take(n as int) =~= items);
                out
            },
        }
    }
}

} // verus!
