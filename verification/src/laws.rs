//! Laws that relate the requests to one another, proved of the model of each request.

use vstd::prelude::*;
use crate::error::ServiceError;
use crate::ident::{is_generated_id, lemma_generated_id_not_blank};
use crate::model::{
    create_records, create_result, delete_records, delete_result, effective_page_size,
    get_result, is_valid, list_result, needs_generated_id, page_end, page_start,
    update_records, update_result,
};
use crate::proto::StudentView;
use crate::store::{has_listing, lemma_listing_len, listing, Records};
use crate::text::is_blank;
use crate::token::{lemma_token_round_trip, token_offset};

verus! {

/// A create that has to generate an id stores the record under the generated id, which is not
/// empty and which no record had before.
pub proof fn law_generated_id_is_new(
    records: Records,
    student: StudentView,
    fresh_id: Seq<char>,
)
    requires
        needs_generated_id(Some(student)),
        is_generated_id(fresh_id),
        create_result(records, Some(student), fresh_id) is Ok,
    ensures
        create_result(records, Some(student), fresh_id) == Ok::<StudentView, ServiceError>(
            StudentView { id: fresh_id, ..student },
        ),
        fresh_id.len() > 0,
        !records.contains_key(fresh_id),
        create_records(records, Some(student), fresh_id).contains_key(fresh_id),
{
    lemma_generated_id_not_blank(fresh_id);
}

/// A create never loses or changes a record that was there before it.
pub proof fn law_create_keeps_records(
    records: Records,
    student: Option<StudentView>,
    fresh_id: Seq<char>,
    id: Seq<char>,
)
    requires
        records.contains_key(id),
    ensures
        create_records(records, student, fresh_id).contains_key(id),
        create_records(records, student, fresh_id)[id] == records[id],
{
}

/// One create after another, each with the record it sends and the id generated for it.
pub type Creates = Seq<(Option<StudentView>, Seq<char>)>;

/// The records after a run of creates, from the first to the last.
pub open spec fn records_after(records: Records, creates: Creates) -> Records
    decreases creates.len(),
{
    if creates.len() == 0 {
        records
    } else {
        create_records(
            records_after(records, creates.drop_last()),
            creates.last().0,
            creates.last().1,
        )
    }
}

/// What the create at index `turn` of a run answers.
pub open spec fn result_at(records: Records, creates: Creates, turn: int) -> Result<
    StudentView,
    ServiceError,
> {
    create_result(
        records_after(records, creates.subrange(0, turn)),
        creates[turn].0,
        creates[turn].1,
    )
}

/// A record that a create of a run stored is still there, unchanged, after every later create
/// of the run: no insertion is lost.
pub proof fn law_creates_keep_every_record(records: Records, creates: Creates, turn: int)
    requires
        0 <= turn < creates.len(),
        result_at(records, creates, turn) is Ok,
    ensures
        ({
            let record = result_at(records, creates, turn)->Ok_0;
            &&& records_after(records, creates).contains_key(record.id)
            &&& records_after(records, creates)[record.id] == record
        }),
    decreases creates.len(),
{
    let record = result_at(records, creates, turn)->Ok_0;
    let earlier = creates.drop_last();
    if turn == creates.len() - 1 {
        assert(creates.subrange(0, turn) =~= earlier);
    } else {
        assert(earlier.subrange(0, turn) =~= creates.subrange(0, turn));
        law_creates_keep_every_record(records, earlier, turn);
        law_create_keeps_records(
            records_after(records, earlier),
            creates.last().0,
            creates.last().1,
            record.id,
        );
    }
}

/// Two creates of one run that both succeed store their records under different ids,
/// however many creates lie between them.
pub proof fn law_created_ids_differ(records: Records, creates: Creates, first: int, second: int)
    requires
        0 <= first < second < creates.len(),
        result_at(records, creates, first) is Ok,
        result_at(records, creates, second) is Ok,
    ensures
        result_at(records, creates, first)->Ok_0.id != result_at(records, creates, second)->Ok_0.id,
{
    let before_second = creates.subrange(0, second);
    assert(before_second.subrange(0, first) =~= creates.subrange(0, first));
    law_creates_keep_every_record(records, before_second, first);
}

/// A get of the id of a record just created answers with that record, where the id is not
/// blank. (A record sent with an id of white space only is stored under it, and no get can
/// name it.)
pub proof fn law_create_then_get(
    records: Records,
    student: Option<StudentView>,
    fresh_id: Seq<char>,
)
    requires
        create_result(records, student, fresh_id) is Ok,
        !is_blank(create_result(records, student, fresh_id)->Ok_0.id),
    ensures
        get_result(
            create_records(records, student, fresh_id),
            create_result(records, student, fresh_id)->Ok_0.id,
        ) == create_result(records, student, fresh_id),
{
}

/// A record created under a generated id can always be fetched by it.
pub proof fn law_create_then_get_generated(
    records: Records,
    student: StudentView,
    fresh_id: Seq<char>,
)
    requires
        needs_generated_id(Some(student)),
        is_generated_id(fresh_id),
        create_result(records, Some(student), fresh_id) is Ok,
    ensures
        get_result(create_records(records, Some(student), fresh_id), fresh_id) == Ok::<
            StudentView,
            ServiceError,
        >(StudentView { id: fresh_id, ..student }),
{
    lemma_generated_id_not_blank(fresh_id);
}

/// An update of an id that the store does not hold fails with `NotFound` and changes nothing.
pub proof fn law_update_of_missing_id(records: Records, student: StudentView)
    requires
        !is_blank(student.id),
        is_valid(student),
        !records.contains_key(student.id),
    ensures
        update_result(records, Some(student)) == Err::<StudentView, ServiceError>(
            ServiceError::NotFound,
        ),
        update_records(records, Some(student)) == records,
{
}

/// An update of an id that the store holds puts the record sent, whole, in place of the old
/// one: a get of the id answers with it. The store holds the same ids as before, and every
/// other record is as it was.
pub proof fn law_update_replaces(records: Records, student: StudentView)
    requires
        !is_blank(student.id),
        is_valid(student),
        records.contains_key(student.id),
    ensures
        update_result(records, Some(student)) == Ok::<StudentView, ServiceError>(student),
        get_result(update_records(records, Some(student)), student.id) == Ok::<
            StudentView,
            ServiceError,
        >(student),
        update_records(records, Some(student)).dom() == records.dom(),
        forall|other: Seq<char>|
            other != student.id && records.contains_key(other) ==> #[trigger] update_records(
                records,
                Some(student),
            )[other] == records[other],
{
    assert(update_records(records, Some(student)).dom() =~= records.dom());
}

/// After a delete that succeeded, a get of the same id fails with `NotFound`, and so does a
/// second delete: deleting is not idempotent.
pub proof fn law_delete_then_not_found(records: Records, id: Seq<char>)
    requires
        delete_result(records, id) is Ok,
    ensures
        get_result(delete_records(records, id), id) == Err::<StudentView, ServiceError>(
            ServiceError::NotFound,
        ),
        delete_result(delete_records(records, id), id) == Err::<StudentView, ServiceError>(
            ServiceError::NotFound,
        ),
        delete_records(delete_records(records, id), id) == delete_records(records, id),
{
}

/// A delete takes out the record it names and no other.
pub proof fn law_delete_keeps_others(records: Records, id: Seq<char>, other: Seq<char>)
    requires
        other != id,
        records.contains_key(other),
    ensures
        delete_records(records, id).contains_key(other),
        delete_records(records, id)[other] == records[other],
{
}

/// Following a page's token resumes where the page ended: the page of the next token starts
/// at the end of the page before it, and the two pages together are one stretch of the
/// listing.
pub proof fn law_next_page_resumes(records: Records, page_size: i32, page_token: Seq<char>)
    requires
        listing(records).len() <= usize::MAX,
        list_result(records, page_size, page_token).next_page_token.len() > 0,
    ensures
        ({
            let count = listing(records).len();
            let page = list_result(records, page_size, page_token);
            let next = list_result(records, page_size, page.next_page_token);
            let start = page_start(page_token, count);
            let end = page_end(page_size, page_token, count);
            &&& page_start(page.next_page_token, count) == end
            &&& page.students.len() == effective_page_size(page_size)
            &&& page.students + next.students == listing(records).subrange(
                start as int,
                page_end(page_size, page.next_page_token, count) as int,
            )
        }),
{
    let count = listing(records).len();
    let page = list_result(records, page_size, page_token);
    let next = list_result(records, page_size, page.next_page_token);
    let start = page_start(page_token, count);
    let end = page_end(page_size, page_token, count);
    crate::token::lemma_decimal_digits(end);
    lemma_token_round_trip(end);
    assert(page.students + next.students =~= listing(records).subrange(
        start as int,
        page_end(page_size, page.next_page_token, count) as int,
    ));
}

/// The last page, and only the last, comes with an empty token: the token is empty exactly
/// when the page reaches the end of the listing.
pub proof fn law_empty_token_marks_last_page(
    records: Records,
    page_size: i32,
    page_token: Seq<char>,
)
    ensures
        list_result(records, page_size, page_token).next_page_token.len() == 0 <==> page_end(
            page_size,
            page_token,
            listing(records).len(),
        ) == listing(records).len(),
{
    crate::token::lemma_decimal_digits(page_end(page_size, page_token, listing(records).len()));
}

/// The count that comes with every page is the number of records held.
pub proof fn law_total_count(records: Records, page_size: i32, page_token: Seq<char>)
    requires
        has_listing(records),
    ensures
        records.dom().finite(),
        list_result(records, page_size, page_token).total_count == records.dom().len(),
{
    lemma_listing_len(listing(records), records);
}

/// A page that starts at or beyond the end of the listing is empty and is the last.
pub proof fn law_page_beyond_end_is_empty(records: Records, page_size: i32, page_token: Seq<char>)
    requires
        token_offset(page_token) >= listing(records).len(),
    ensures
        list_result(records, page_size, page_token).students.len() == 0,
        list_result(records, page_size, page_token).next_page_token.len() == 0,
{
}

} // verus!
