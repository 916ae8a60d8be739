//! Extraction of price observations from the entries of a price list.
//!
//! Each entry yields four fields: the station's name and address, the time
//! of the last update and the price. A field is read from the markup of its
//! node in two steps: the patterns of the markup contract are matched against
//! the text, and a verified function turns the captured groups into the
//! field's value or into a classified rejection. An entry is accepted only
//! when all four fields are; otherwise the first rejection, in the order
//! name, address, price, update time, is reported for it.

use vstd::prelude::*;
use crate::error::{ErrorKind, ParseError};
use crate::markup::{collect_items, scraped_items, RawItem, RawItemView, ADDR_SELECTOR, NAME_SELECTOR, PRICE_SELECTOR, UPDATED_SELECTOR};
use crate::pattern::{captures, read_small_number, regex_captures, regex_compiles, small_number};
use crate::price::{amount_of_display, valid_display};
use crate::timestamp::{local_instant, utc_seconds, valid_civil};

verus! {

/// The text of a name or address: from the first word boundary to the last
/// one on the same line.
pub const TEXT_PATTERN: &'static str = r"\b.+\b";
/// An update node with nothing but white space: no data yet.
pub const BLANK_PATTERN: &'static str = r"^\s*$";
/// Day, month, one separator, hour and minute: `DD.MM.?HH:MM`.
pub const UPDATED_PATTERN: &'static str = r"(?P<d>\d{2})\.(?P<m>\d{2})\..(?P<h>\d{2}):(?P<min>\d{2})";
/// The "no price yet" placeholder `-.--`.
pub const UNAVAILABLE_PRICE_PATTERN: &'static str = r"[\-]\.[\-]{2}";
/// Whole units and hundredths (`D.DD`), then, further on, the thousandths
/// digit on its own.
pub const PRICE_PATTERN: &'static str = r"\b(?P<eur>\d)\.(?P<cent>\d{2})\b(?s:.+)\b(?P<subcent>\d)\b";
/// The source shows no year: update times are read in this year.
pub const DEFAULT_YEAR: i32 = 2023;

/// A station, identified by its name and address.
#[derive(Debug, Clone, PartialEq, Eq)]
pub struct RefuelStation {
    pub name: String,
    pub addr: String,
}

/// A price seen at a station, with the instant of its last update in seconds
/// since the Unix epoch.
#[derive(Debug, Clone, PartialEq, Eq)]
pub struct PriceChange {
    pub price: [u8; 3],
    pub updated: i64,
}

impl PriceChange {
    /// The price as an amount in thousandths.
    pub fn convert_to_subcent(&self) -> (r: i32)
        requires
            valid_display(self.price),
        ensures
            r == amount_of_display(self.price),
    {
        crate::price::to_amount(self.price)
    }
}

/// An accepted entry of the price list.
#[derive(Debug, Clone, PartialEq, Eq)]
pub struct RefuelStationPriceChange {
    pub station: RefuelStation,
    pub price_change: PriceChange,
}

/// Day, month, hour and minute read from an update node.
#[derive(Debug, Clone, Copy, PartialEq, Eq)]
pub struct ClockReading {
    pub day: u8,
    pub month: u8,
    pub hour: u8,
    pub minute: u8,
}

/// Group `i` of a match, `None` when there is no such group.
pub open spec fn group(g: Seq<Option<Seq<char>>>, i: int) -> Option<Seq<char>> {
    if 0 <= i < g.len() {
        g[i]
    } else {
        None
    }
}

/// Text field from the match of `TEXT_PATTERN`.
pub open spec fn text_outcome(caps: Option<Seq<Option<Seq<char>>>>) -> Result<Seq<char>, ErrorKind> {
    match caps {
        Some(g) => match group(g, 0) {
            Some(t) => Ok(t),
            None => Err(ErrorKind::RegexMismatch),
        },
        None => Err(ErrorKind::RegexMismatch),
    }
}

/// Price field from the match of the placeholder pattern and of
/// `PRICE_PATTERN`: whole units, hundredths, thousandths.
pub open spec fn price_outcome(
    placeholder: Option<Seq<Option<Seq<char>>>>,
    caps: Option<Seq<Option<Seq<char>>>>,
) -> Result<(int, int, int), ErrorKind> {
    if placeholder is Some {
        Err(ErrorKind::InvalidPrice)
    } else {
        match caps {
            None => Err(ErrorKind::RegexMismatch),
            Some(g) => match (group(g, 1), group(g, 2), group(g, 3)) {
                (Some(a), Some(b), Some(c)) => match (small_number(a), small_number(b), small_number(c)) {
                    (Some(x), Some(y), Some(z)) => if y < 100 && z < 10 {
                        Ok((x, y, z))
                    } else {
                        Err(ErrorKind::ParseInt)
                    },
                    _ => Err(ErrorKind::ParseInt),
                },
                _ => Err(ErrorKind::RegexMismatch),
            },
        }
    }
}

/// Update-time field from the match of `BLANK_PATTERN` and of
/// `UPDATED_PATTERN`: day, month, hour, minute.
pub open spec fn updated_outcome(
    blank: Option<Seq<Option<Seq<char>>>>,
    caps: Option<Seq<Option<Seq<char>>>>,
) -> Result<(int, int, int, int), ErrorKind> {
    if blank is Some {
        Err(ErrorKind::InvalidUpdated)
    } else {
        match caps {
            None => Err(ErrorKind::RegexMismatch),
            Some(g) => match (group(g, 1), group(g, 2), group(g, 3), group(g, 4)) {
                (Some(a), Some(b), Some(c), Some(d)) => match (
                    small_number(a),
                    small_number(b),
                    small_number(c),
                    small_number(d),
                ) {
                    (Some(w), Some(x), Some(y), Some(z)) => Ok((w, x, y, z)),
                    _ => Err(ErrorKind::ParseInt),
                },
                _ => Err(ErrorKind::RegexMismatch),
            },
        }
    }
}

pub open spec fn text_agrees(r: Result<String, ParseError>, o: Result<Seq<char>, ErrorKind>) -> bool {
    match (r, o) {
        (Ok(s), Ok(t)) => s@ == t,
        (Err(e), Err(k)) => e.spec_kind() == k,
        _ => false,
    }
}

pub open spec fn price_agrees(r: Result<[u8; 3], ParseError>, o: Result<(int, int, int), ErrorKind>) -> bool {
    match (r, o) {
        (Ok(p), Ok((a, b, c))) => p[0] == a && p[1] == b && p[2] == c,
        (Err(e), Err(k)) => e.spec_kind() == k,
        _ => false,
    }
}

pub open spec fn reading_agrees(
    r: Result<ClockReading, ParseError>,
    o: Result<(int, int, int, int), ErrorKind>,
) -> bool {
    match (r, o) {
        (Ok(t), Ok((d, m, h, mi))) => t.day == d && t.month == m && t.hour == h && t.minute == mi,
        (Err(e), Err(k)) => e.spec_kind() == k,
        _ => false,
    }
}

fn group_text(g: &Vec<Option<String>>, i: usize) -> (r: Option<String>)
    ensures
        r.deep_view() == group(g.deep_view(), i as int),
{
    if i < g.len() {
        match &g[i] {
            Some(t) => Some(t.clone()),
            None => None,
        }
    } else {
        None
    }
}

/// The text of a name or address node, given the match of `TEXT_PATTERN` in
/// it.
pub fn text_from_captures(text: &String, caps: &Option<Vec<Option<String>>>) -> (r: Result<String, ParseError>)
    ensures
        text_agrees(r, text_outcome(caps.deep_view())),
        r matches Err(e) ==> e.spec_markup() == text@,
{
    let mismatch = ParseError::RegexMismatchError { html: text.clone(), regex: String::from_str(TEXT_PATTERN) };
    match caps {
        None => Err(mismatch),
        Some(g) => match group_text(g, 0) {
            Some(t) => Ok(t),
            None => Err(mismatch),
        },
    }
}

/// The display price of a price node, given the match of
/// `UNAVAILABLE_PRICE_PATTERN` and of `PRICE_PATTERN` in it.
pub fn price_from_captures(
    text: &String,
    placeholder: &Option<Vec<Option<String>>>,
    caps: &Option<Vec<Option<String>>>,
) -> (r: Result<[u8; 3], ParseError>)
    ensures
        price_agrees(r, price_outcome(placeholder.deep_view(), caps.deep_view())),
        r matches Ok(p) ==> valid_display(p),
        r matches Err(e) ==> e.spec_markup() == text@,
{
    if placeholder.is_some() {
        return Err(
            ParseError::InvalidPriceError { html: text.clone(), regex: String::from_str(UNAVAILABLE_PRICE_PATTERN) },
        );
    }
    let mismatch = ParseError::RegexMismatchError { html: text.clone(), regex: String::from_str(PRICE_PATTERN) };
    let g = match caps {
        None => return Err(mismatch),
        Some(g) => g,
    };
    let (a, b, c) = match (group_text(g, 1), group_text(g, 2), group_text(g, 3)) {
        (Some(a), Some(b), Some(c)) => (a, b, c),
        _ => return Err(mismatch),
    };
    let x = read_small_number(a.as_str());
    let y = read_small_number(b.as_str());
    let z = read_small_number(c.as_str());
    match (x, y, z) {
        (Some(x), Some(y), Some(z)) => {
            if y < 100 && z < 10 {
                Ok([x, y, z])
            } else {
                Err(ParseError::ParseIntError { text: text.clone() })
            }
        },
        _ => Err(ParseError::ParseIntError { text: text.clone() }),
    }
}

/// Day, month, hour and minute of an update node, given the match of
/// `BLANK_PATTERN` and of `UPDATED_PATTERN` in it.
pub fn reading_from_captures(
    text: &String,
    blank: &Option<Vec<Option<String>>>,
    caps: &Option<Vec<Option<String>>>,
) -> (r: Result<ClockReading, ParseError>)
    ensures
        reading_agrees(r, updated_outcome(blank.deep_view(), caps.deep_view())),
        r matches Err(e) ==> e.spec_markup() == text@,
{
    if blank.is_some() {
        return Err(ParseError::InvalidUpdatedError { html: text.clone(), regex: String::from_str(BLANK_PATTERN) });
    }
    let mismatch = ParseError::RegexMismatchError { html: text.clone(), regex: String::from_str(UPDATED_PATTERN) };
    let g = match caps {
        None => return Err(mismatch),
        Some(g) => g,
    };
    let (a, b, c, d) = match (group_text(g, 1), group_text(g, 2), group_text(g, 3), group_text(g, 4)) {
        (Some(a), Some(b), Some(c), Some(d)) => (a, b, c, d),
        _ => return Err(mismatch),
    };
    match (
        read_small_number(a.as_str()),
        read_small_number(b.as_str()),
        read_small_number(c.as_str()),
        read_small_number(d.as_str()),
    ) {
        (Some(day), Some(month), Some(hour), Some(minute)) => Ok(ClockReading { day, month, hour, minute }),
        _ => Err(ParseError::ParseIntError { text: text.clone() }),
    }
}

fn find(pattern: &str, text: &str) -> (r: Result<Option<Vec<Option<String>>>, ParseError>)
    ensures
        r is Ok <==> regex_compiles(pattern@),
        r matches Ok(c) ==> c.deep_view() == regex_captures(pattern@, text@),
        r matches Err(e) ==> e.spec_kind() == ErrorKind::InvalidPattern,
{
    match captures(pattern, text) {
        Ok(c) => Ok(c),
        Err(_) => Err(ParseError::InvalidPatternError { regex: String::from_str(pattern) }),
    }
}

/// Name or address field of an entry whose field node has the markup `node`.
pub open spec fn text_field(node: Option<Seq<char>>) -> Result<Seq<char>, ErrorKind> {
    match node {
        None => Err(ErrorKind::HtmlSelect),
        Some(t) => if !regex_compiles(TEXT_PATTERN@) {
            Err(ErrorKind::InvalidPattern)
        } else {
            text_outcome(regex_captures(TEXT_PATTERN@, t))
        },
    }
}

/// Price field of an entry whose price node has the markup `node`.
pub open spec fn price_field(node: Option<Seq<char>>) -> Result<(int, int, int), ErrorKind> {
    match node {
        None => Err(ErrorKind::HtmlSelect),
        Some(t) => if !regex_compiles(UNAVAILABLE_PRICE_PATTERN@) || !regex_compiles(PRICE_PATTERN@) {
            Err(ErrorKind::InvalidPattern)
        } else {
            price_outcome(regex_captures(UNAVAILABLE_PRICE_PATTERN@, t), regex_captures(PRICE_PATTERN@, t))
        },
    }
}

/// Day, month, hour and minute of an entry whose update node has the markup
/// `node`.
pub open spec fn updated_field(node: Option<Seq<char>>) -> Result<(int, int, int, int), ErrorKind> {
    match node {
        None => Err(ErrorKind::HtmlSelect),
        Some(t) => if !regex_compiles(BLANK_PATTERN@) || !regex_compiles(UPDATED_PATTERN@) {
            Err(ErrorKind::InvalidPattern)
        } else {
            updated_outcome(regex_captures(BLANK_PATTERN@, t), regex_captures(UPDATED_PATTERN@, t))
        },
    }
}

/// `t` is the instant of the wall-clock reading `(day, month, hour, minute)`
/// of `DEFAULT_YEAR`, at zero seconds, in some time zone: the date exists and
/// `t` lies within a day of that reading taken as UTC.
pub open spec fn instant_of_reading(t: int, reading: (int, int, int, int)) -> bool {
    let (d, m, h, mi) = reading;
    &&& valid_civil(DEFAULT_YEAR as int, m, d, h, mi, 0)
    &&& utc_seconds(DEFAULT_YEAR as int, m, d, h, mi, 0) - 86400 < t
    &&& t < utc_seconds(DEFAULT_YEAR as int, m, d, h, mi, 0) + 86400
}

/// The first rejection among the fields of an entry, in the order name,
/// address, price, update time.
pub open spec fn first_failure(item: RawItemView) -> Option<ErrorKind> {
    if text_field(item.name) is Err {
        Some(text_field(item.name)->Err_0)
    } else if text_field(item.addr) is Err {
        Some(text_field(item.addr)->Err_0)
    } else if price_field(item.price) is Err {
        Some(price_field(item.price)->Err_0)
    } else if updated_field(item.updated) is Err {
        Some(updated_field(item.updated)->Err_0)
    } else {
        None
    }
}

/// What extracting `item` gives. An accepted entry has all four fields and
/// holds their values. A rejected one reports the first rejected field; when
/// all four fields are read, only a reading that names no single local
/// instant rejects it.
pub open spec fn item_result(item: RawItemView, r: Result<RefuelStationPriceChange, ParseError>) -> bool {
    match r {
        Ok(rec) => {
            &&& first_failure(item) is None
            &&& rec.station.name@ == text_field(item.name)->Ok_0
            &&& rec.station.addr@ == text_field(item.addr)->Ok_0
            &&& price_agrees(Ok(rec.price_change.price), price_field(item.price))
            &&& valid_display(rec.price_change.price)
            &&& instant_of_reading(rec.price_change.updated as int, updated_field(item.updated)->Ok_0)
        },
        Err(e) => {
            ||| first_failure(item) == Some(e.spec_kind())
            ||| (first_failure(item) is None && e.spec_kind() == ErrorKind::Timestamp)
        },
    }
}

/// A missing field node is reported with the entry's markup and the node's
/// selector.
pub open spec fn select_error(r: Result<String, ParseError>, html: Seq<char>, selector: Seq<char>) -> bool {
    r matches Err(ParseError::HtmlSelectError { html: h, selector: s }) && h@ == html && s@ == selector
}

/// A rejected field that was read reports the node's text, unless a pattern
/// was refused.
pub open spec fn reports_markup(e: ParseError, node: Option<Seq<char>>) -> bool {
    e.spec_kind() != ErrorKind::InvalidPattern && e.spec_kind() != ErrorKind::HtmlSelect ==> e.spec_markup()
        == node->Some_0
}

/// Reads a name or address from its node; `html` is the entry's markup and
/// `selector` the node's selector, both for the report of a missing node.
pub fn parse_text(html: &String, node: &Option<String>, selector: &str) -> (r: Result<String, ParseError>)
    ensures
        text_agrees(r, text_field(node.deep_view())),
        node is None ==> select_error(r, html@, selector@),
        r matches Err(e) ==> reports_markup(e, node.deep_view()),
{
    match node {
        None => Err(ParseError::HtmlSelectError { html: html.clone(), selector: String::from_str(selector) }),
        Some(text) => {
            let caps = find(TEXT_PATTERN, text.as_str())?;
            text_from_captures(text, &caps)
        },
    }
}

/// Reads the display price from the price node.
pub fn parse_price(html: &String, node: &Option<String>) -> (r: Result<[u8; 3], ParseError>)
    ensures
        price_agrees(r, price_field(node.deep_view())),
        r matches Ok(p) ==> valid_display(p),
        node is None ==> (r matches Err(ParseError::HtmlSelectError { html: h, selector: s }) && h@ == html@
            && s@ == PRICE_SELECTOR@),
        r matches Err(e) ==> reports_markup(e, node.deep_view()),
{
    match node {
        None => Err(ParseError::HtmlSelectError { html: html.clone(), selector: String::from_str(PRICE_SELECTOR) }),
        Some(text) => {
            let placeholder = find(UNAVAILABLE_PRICE_PATTERN, text.as_str())?;
            let caps = find(PRICE_PATTERN, text.as_str())?;
            price_from_captures(text, &placeholder, &caps)
        },
    }
}

/// Reads the instant of the last update from the update node: day, month,
/// hour and minute of `DEFAULT_YEAR`, at zero seconds, in local time. Whether
/// that reading names a single instant depends on the machine's time zone.
pub fn parse_updated(html: &String, node: &Option<String>) -> (r: Result<i64, ParseError>)
    ensures
        r matches Ok(t) ==> updated_field(node.deep_view()) is Ok && instant_of_reading(
            t as int,
            updated_field(node.deep_view())->Ok_0,
        ),
        r matches Err(e) ==> (updated_field(node.deep_view()) is Err && e.spec_kind() == updated_field(
            node.deep_view(),
        )->Err_0) || (updated_field(node.deep_view()) is Ok && e.spec_kind() == ErrorKind::Timestamp),
        updated_field(node.deep_view()) is Err ==> r is Err,
        node is None ==> (r matches Err(ParseError::HtmlSelectError { html: h, selector: s }) && h@ == html@
            && s@ == UPDATED_SELECTOR@),
        r matches Err(e) ==> reports_markup(e, node.deep_view()),
{
    match node {
        None => Err(ParseError::HtmlSelectError { html: html.clone(), selector: String::from_str(UPDATED_SELECTOR) }),
        Some(text) => {
            let blank = find(BLANK_PATTERN, text.as_str())?;
            let caps = find(UPDATED_PATTERN, text.as_str())?;
            let reading = reading_from_captures(text, &blank, &caps)?;
            match local_instant(
                DEFAULT_YEAR,
                reading.month as u32,
                reading.day as u32,
                reading.hour as u32,
                reading.minute as u32,
                0,
            ) {
                Some(t) => Ok(t),
                None => Err(ParseError::TimestampError { html: text.clone() }),
            }
        },
    }
}

/// Extracts one entry: its four fields are read, then the entry is accepted
/// if all four are, and otherwise rejected with the first field's rejection.
pub fn extract_item(item: &RawItem) -> (r: Result<RefuelStationPriceChange, ParseError>)
    ensures
        item_result(item@, r),
{
    let name = parse_text(&item.html, &item.name, NAME_SELECTOR);
    let addr = parse_text(&item.html, &item.addr, ADDR_SELECTOR);
    let price = parse_price(&item.html, &item.price);
    let updated = parse_updated(&item.html, &item.updated);
    match (name, addr, price, updated) {
        (Ok(name), Ok(addr), Ok(price), Ok(updated)) => Ok(
            RefuelStationPriceChange {
                station: RefuelStation { name, addr },
                price_change: PriceChange { price, updated },
            },
        ),
        (Err(e), _, _, _) => Err(e),
        (_, Err(e), _, _) => Err(e),
        (_, _, Err(e), _) => Err(e),
        (_, _, _, Err(e)) => Err(e),
    }
}

/// `v` holds the outcome of extraction for each of `items`, in order.
pub open spec fn outcomes_of(items: Seq<RawItemView>, v: Seq<Result<RefuelStationPriceChange, ParseError>>) -> bool {
    &&& items.len() == v.len()
    &&& forall|i: int| 0 <= i < items.len() ==> item_result(#[trigger] items[i], v[i])
}

/// Extracts every entry, in order: one outcome per entry.
pub fn extract(items: &Vec<RawItem>) -> (r: Vec<Result<RefuelStationPriceChange, ParseError>>)
    ensures
        outcomes_of(items@.map_values(|x: RawItem| x@), r@),
{
    let ghost views = items@.map_values(|x: RawItem| x@);
    let mut out: Vec<Result<RefuelStationPriceChange, ParseError>> = Vec::new();
    let mut i: usize = 0;
    while i < items.len()
        invariant
            i <= items@.len(),
            views == items@.map_values(|x: RawItem| x@),
            out@.len() == i,
            forall|j: int| 0 <= j < i ==> item_result(#[trigger] views[j], out@[j]),
        decreases items@.len() - i,
    {
        let r = extract_item(&items[i]);
        out.push(r);
        i = i + 1;
    }
    out
}

/// Extracts the price list of a document: one outcome per entry of the list,
/// in document order. The document is rejected, with `ListNotFoundError`,
/// exactly when it has no price list; a rejected entry never stops the
/// others.
pub fn parse(markup: &str) -> (r: Result<Vec<Result<RefuelStationPriceChange, ParseError>>, ParseError>)
    ensures
        r is Err <==> scraped_items(markup@) is None,
        r matches Err(e) ==> e.spec_kind() == ErrorKind::ListNotFound,
        r matches Ok(v) ==> outcomes_of(scraped_items(markup@)->Some_0, v@),
{
    let items = collect_items(markup)?;
    let v = extract(&items);
    Ok(v)
}

/// The accepted records of a sequence of outcomes, in order.
pub open spec fn accepted_records(s: Seq<Result<RefuelStationPriceChange, ParseError>>) -> Seq<RefuelStationPriceChange>
    decreases s.len(),
{
    if s.len() == 0 {
        Seq::empty()
    } else {
        let head = match s[0] {
            Ok(rec) => seq![rec],
            Err(_) => Seq::empty(),
        };
        head + accepted_records(s.drop_first())
    }
}

/// Keeps the accepted records of `outcomes`, in order.
pub fn accepted(outcomes: Vec<Result<RefuelStationPriceChange, ParseError>>) -> (r: Vec<RefuelStationPriceChange>)
    ensures
        r@ == accepted_records(outcomes@),
{
    let mut rest = outcomes;
    let mut out: Vec<RefuelStationPriceChange> = Vec::new();
    while rest.len() > 0
        invariant
            out@ + accepted_records(rest@) == accepted_records(outcomes@),
        decreases rest@.len(),
    {
        let ghost before = rest@;
        let o = rest.remove(0);
        assert(before.drop_first() =~= rest@);
        match o {
            Ok(rec) => {
                out.push(rec);
                assert(out@ + accepted_records(rest@) =~= accepted_records(outcomes@));
            },
            Err(_) => {
                assert(out@ + accepted_records(rest@) =~= accepted_records(outcomes@));
            },
        }
    }
    assert(accepted_records(rest@) =~= Seq::empty());
    assert(out@ =~= out@ + accepted_records(rest@));
    out
}

/// An entry without a name node is rejected with a select error, and every
/// other entry of the list still has its own outcome.
pub proof fn lemma_missing_name_rejected(
    items: Seq<RawItemView>,
    v: Seq<Result<RefuelStationPriceChange, ParseError>>,
    i: int,
)
    requires
        outcomes_of(items, v),
        0 <= i < items.len(),
        items[i].name is None,
    ensures
        v[i] matches Err(e) && e.spec_kind() == ErrorKind::HtmlSelect,
        v.len() == items.len(),
        forall|j: int| 0 <= j < items.len() && j != i ==> item_result(#[trigger] items[j], v[j]),
{
    assert(item_result(items[i], v[i]));
}

/// Entries whose first rejected field is a "not available yet" placeholder
/// are skipped as benign; entries with all four fields read are accepted
/// unless their reading names no single local instant; no other entry is
/// rejected with a benign kind.
pub proof fn lemma_placeholder_entries_benign(
    items: Seq<RawItemView>,
    v: Seq<Result<RefuelStationPriceChange, ParseError>>,
)
    requires
        outcomes_of(items, v),
    ensures
        forall|i: int|
            0 <= i < items.len() && (first_failure(#[trigger] items[i]) == Some(ErrorKind::InvalidPrice)
                || first_failure(items[i]) == Some(ErrorKind::InvalidUpdated)) ==> (v[i] matches Err(e)
                && e.spec_is_benign()),
        forall|i: int|
            0 <= i < items.len() && first_failure(#[trigger] items[i]) is None ==> (v[i] is Ok || (v[i] matches Err(
                e,
            ) && e.spec_kind() == ErrorKind::Timestamp)),
        forall|i: int|
            0 <= i < items.len() && (v[i] matches Err(e) && e.spec_is_benign()) ==> first_failure(
                #[trigger] items[i],
            ) == Some(v[i]->Err_0.spec_kind()),
{
    assert forall|i: int| 0 <= i < items.len() implies item_result(#[trigger] items[i], v[i]) by {}
}

} // verus!
