//! The descriptor of one menu page and the enumeration of such descriptors.

use crate::catalog::{Meal, Restaurant};
use crate::date::{
    date_text, dates_from, day_number, parsed_date, valid_date, Date, LAST_DAY_NUMBER,
};
use crate::error::ParseError;
use vstd::prelude::*;
use vstd::string::StringExecFns;

verus! {

/// One menu page: a date, a meal and a dining hall.
#[derive(Clone, Copy, PartialEq, Eq, Structural, Debug)]
pub struct MenuRequest {
    pub date: Date,
    pub meal: Meal,
    pub restaurant: Restaurant,
}

/// The address of the page of a request.
pub open spec fn url_text(request: MenuRequest) -> Seq<char> {
    "http://menu.dining.ucla.edu/Menus/"@ + request.restaurant.spec_url_name() + "/"@ + date_text(
        request.date@,
    ) + "/"@ + request.meal.spec_url_name()
}

/// The name of the file that holds the menu of a request.
pub open spec fn file_name_text(request: MenuRequest, pretty: bool) -> Seq<char> {
    date_text(request.date@) + "-"@ + request.restaurant.spec_url_name() + "-"@
        + request.meal.spec_url_name() + if pretty {
        "-pretty"@
    } else {
        Seq::<char>::empty()
    }
}

/// The request at place `i` when the pages for `dates` are enumerated: the
/// dates change slowest, then the four meals, and the four dining halls
/// change fastest.
pub open spec fn request_at(dates: Seq<Date>, i: int) -> MenuRequest {
    MenuRequest {
        date: dates[i / 16],
        meal: Meal::catalog()[i / 4 % 4],
        restaurant: Restaurant::catalog()[i % 4],
    }
}

/// All the requests for `dates`, in order.
pub open spec fn requests_of(dates: Seq<Date>) -> Seq<MenuRequest> {
    Seq::new(dates.len() * 16, |i: int| request_at(dates, i))
}

/// The place of the request for date `d`, meal `m` and dining hall `h`.
proof fn lemma_place(d: int, m: int, h: int)
    requires
        0 <= d,
        0 <= m < 4,
        0 <= h < 4,
    ensures
        (16 * d + 4 * m + h) / 16 == d,
        (16 * d + 4 * m + h) / 4 % 4 == m,
        (16 * d + 4 * m + h) % 4 == h,
{
    let i = 16 * d + 4 * m + h;
    assert(i / 4 == 4 * d + m);
    assert(i / 16 == d);
}

/// The pages for `dates` are one for each date, meal and dining hall, and
/// the page for the date at `d`, the meal at `m` and the dining hall at `h`
/// stands at place `(d * meals + m) * halls + h`: by date first, then by
/// meal, then by dining hall.
pub proof fn lemma_request_order(dates: Seq<Date>, d: int, m: int, h: int)
    requires
        0 <= d < dates.len(),
        0 <= m < Meal::catalog().len(),
        0 <= h < Restaurant::catalog().len(),
    ensures
        requests_of(dates).len() == dates.len() * Meal::catalog().len()
            * Restaurant::catalog().len(),
        0 <= (d * Meal::catalog().len() + m) * Restaurant::catalog().len() + h < requests_of(
            dates,
        ).len(),
        requests_of(dates)[(d * Meal::catalog().len() + m) * Restaurant::catalog().len() + h]
            == (MenuRequest {
            date: dates[d],
            meal: Meal::catalog()[m],
            restaurant: Restaurant::catalog()[h],
        }),
{
    assert(Meal::catalog().len() == 4);
    assert(Restaurant::catalog().len() == 4);
    assert((d * 4 + m) * 4 + h == 16 * d + 4 * m + h);
    assert(dates.len() * 4 * 4 == dates.len() * 16);
    lemma_place(d, m, h);
}

impl MenuRequest {
    pub fn url(&self) -> (r: String)
        ensures
            r@ == url_text(*self),
    {
        let mut r = String::from_str("http://menu.dining.ucla.edu/Menus/");
        r.append(self.restaurant.url_name());
        r.append("/");
        r.append(self.date.to_text().as_str());
        r.append("/");
        r.append(self.meal.url_name());
        r
    }

    pub fn file_name(&self, pretty: bool) -> (r: String)
        ensures
            r@ == file_name_text(*self, pretty),
    {
        let mut r = self.date.to_text();
        r.append("-");
        r.append(self.restaurant.url_name());
        r.append("-");
        r.append(self.meal.url_name());
        if pretty {
            r.append("-pretty");
        } else {
            assert(r@ + Seq::<char>::empty() =~= r@);
        }
        r
    }
}

/// One request for each date, meal and dining hall: for each date in the
/// order given, for each meal, for each dining hall.
pub fn menu_requests_for_dates(dates: &Vec<Date>) -> (r: Vec<MenuRequest>)
    ensures
        r@ == requests_of(dates@),
        r.len() == dates.len() * 16,
{
    let meals = Meal::all();
    let halls = Restaurant::all();
    let mut r: Vec<MenuRequest> = Vec::new();
    let mut d: usize = 0;
    while d < dates.len()
        invariant
            d <= dates.len(),
            meals@ == Meal::catalog(),
            halls@ == Restaurant::catalog(),
            r.len() == d * 16,
            forall|i: int| 0 <= i < r.len() ==> r[i] == request_at(dates@, i),
        decreases dates.len() - d,
    {
        let mut m: usize = 0;
        while m < 4
            invariant
                d < dates.len(),
                m <= 4,
                meals@ == Meal::catalog(),
                halls@ == Restaurant::catalog(),
                r.len() == d * 16 + m * 4,
                forall|i: int| 0 <= i < r.len() ==> r[i] == request_at(dates@, i),
            decreases 4 - m,
        {
            let mut h: usize = 0;
            while h < 4
                invariant
                    d < dates.len(),
                    m < 4,
                    h <= 4,
                    meals@ == Meal::catalog(),
                    halls@ == Restaurant::catalog(),
                    r.len() == d * 16 + m * 4 + h,
                    forall|i: int| 0 <= i < r.len() ==> r[i] == request_at(dates@, i),
                decreases 4 - h,
            {
                let ghost i = r.len() as int;
                r.push(MenuRequest { date: dates[d], meal: meals[m], restaurant: halls[h] });
                proof {
                    lemma_place(d as int, m as int, h as int);
                }
                h = h + 1;
            }
            m = m + 1;
        }
        d = d + 1;
    }
    assert(r@ =~= requests_of(dates@));
    r
}

/// The requests for the week that begins with `today`: seven dates.
///
/// The week has to end within the calendar.
pub fn get_all_menu_requests(today: Date) -> (r: Vec<MenuRequest>)
    requires
        day_number(today@) + 6 <= LAST_DAY_NUMBER,
    ensures
        r.len() == 7 * 16,
        forall|i: int|
            0 <= i < r.len() ==> {
                &&& valid_date((#[trigger] r[i]).date@)
                &&& day_number(r[i].date@) == day_number(today@) + i / 16
                &&& r[i].meal == Meal::catalog()[i / 4 % 4]
                &&& r[i].restaurant == Restaurant::catalog()[i % 4]
            },
{
    let dates = dates_from(today, 7);
    let r = menu_requests_for_dates(&dates);
    assert forall|i: int| 0 <= i < r.len() implies {
        &&& valid_date((#[trigger] r[i]).date@)
        &&& day_number(r[i].date@) == day_number(today@) + i / 16
        &&& r[i].meal == Meal::catalog()[i / 4 % 4]
        &&& r[i].restaurant == Restaurant::catalog()[i % 4]
    } by {
        assert(r[i] == request_at(dates@, i));
        assert(0 <= i / 16 < 7);
    }
    r
}

/// What a run is asked to cover.
pub open spec fn selected(all: bool, date: Seq<char>, today: Date, r: Seq<MenuRequest>) -> bool {
    if all {
        &&& r.len() == 7 * 16
        &&& forall|i: int|
            0 <= i < r.len() ==> {
                &&& valid_date((#[trigger] r[i]).date@)
                &&& day_number(r[i].date@) == day_number(today@) + i / 16
                &&& r[i].meal == Meal::catalog()[i / 4 % 4]
                &&& r[i].restaurant == Restaurant::catalog()[i % 4]
            }
    } else {
        &&& r.len() == 16
        &&& forall|i: int|
            0 <= i < r.len() ==> {
                &&& parsed_date(date) == Some((#[trigger] r[i]).date@)
                &&& r[i].meal == Meal::catalog()[i / 4]
                &&& r[i].restaurant == Restaurant::catalog()[i % 4]
            }
    }
}

/// The requests of a run: those of the week that begins with `today` where
/// `all` is set, else those of the one date that `date` names.
///
/// With `all` the week has to end within the calendar. A `date` that names no
/// date is refused, and nothing is enumerated.
pub fn get_requests(all: bool, date: &str, today: Date) -> (r: Result<
    Vec<MenuRequest>,
    ParseError,
>)
    requires
        all ==> day_number(today@) + 6 <= LAST_DAY_NUMBER,
    ensures
        r is Err <==> !all && parsed_date(date@) is None,
        r matches Err(e) ==> e@ == (crate::error::ParseErrorView::Date { text: date@ }),
        r matches Ok(v) ==> selected(all, date@, today, v@),
{
    if all {
        return Ok(get_all_menu_requests(today));
    }
    match Date::parse(date) {
        Ok(d) => {
            let mut dates: Vec<Date> = Vec::new();
            dates.push(d);
            let r = menu_requests_for_dates(&dates);
            assert forall|i: int| 0 <= i < r.len() implies {
                &&& parsed_date(date@) == Some((#[trigger] r[i]).date@)
                &&& r[i].meal == Meal::catalog()[i / 4]
                &&& r[i].restaurant == Restaurant::catalog()[i % 4]
            } by {
                assert(r[i] == request_at(dates@, i));
            }
            Ok(r)
        },
        Err(e) => Err(e),
    }
}

} // verus!
