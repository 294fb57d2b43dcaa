//! Lists: what a path names, what each request is answered with, and the card
//! of a list.
//!
//! An utterance that the grammar does not clearly recognize is refused and never
//! guessed at.

use vstd::prelude::*;

use crate::audit;
use crate::cards::HudCardDto;
use crate::deepdive::{CanvasActionDto, HudCanvasDto};
use crate::identity::DeviceContext;
use crate::ids;
use crate::problem;
use crate::problem::{ErrorCode, ProblemDetails};
use crate::text;

verus! {

#[derive(Debug)]
pub struct ListItem {
    pub id: String,
    pub text: String,
    pub checked: bool,
}

#[derive(Debug)]
pub struct ItemList {
    pub id: String,
    pub name: String,
    pub items: Vec<ListItem>,
}

pub open spec fn same_item(a: ListItem, b: ListItem) -> bool {
    a.id@ == b.id@ && a.text@ == b.text@ && a.checked == b.checked
}

/// Whether two lists say the same.
pub open spec fn same_list(a: ItemList, b: ItemList) -> bool {
    &&& a.id@ == b.id@
    &&& a.name@ == b.name@
    &&& a.items@.len() == b.items@.len()
    &&& forall|i: int| 0 <= i < b.items@.len() ==> same_item(#[trigger] a.items@[i], b.items@[i])
}

/// A list as it is shown.
pub fn to_list_dto(list: &ItemList) -> (dto: ItemList)
    ensures
        same_list(dto, *list),
{
    let mut items: Vec<ListItem> = Vec::new();
    let mut i: usize = 0;
    while i < list.items.len()
        invariant
            i <= list.items@.len(),
            items@.len() == i,
            forall|k: int| 0 <= k < i ==> same_item(#[trigger] items@[k], list.items@[k]),
        decreases list.items@.len() - i,
    {
        items.push(
            ListItem {
                id: list.items[i].id.clone(),
                text: list.items[i].text.clone(),
                checked: list.items[i].checked,
            },
        );
        i = i + 1;
    }
    ItemList { id: list.id.clone(), name: list.name.clone(), items }
}

/// The identifier of a list's card.
pub open spec fn card_id(list_id: Seq<char>) -> Seq<char> {
    "list-"@ + list_id
}

/// Whether a card is the card of a list.
pub open spec fn is_card_of(card: HudCardDto, list: ItemList) -> bool {
    card matches HudCardDto::List { id, list_id, list: shown } && id@ == card_id(list.id@)
        && list_id@ == list.id@ && same_list(shown, list)
}

/// The card of a list. Its identifier derives from the list's, so publishing it
/// again updates the one card.
pub fn to_list_card(list: &ItemList) -> (card: HudCardDto)
    ensures
        is_card_of(card, *list),
{
    HudCardDto::List {
        id: text::concat2("list-", list.id.as_str()),
        list_id: list.id.clone(),
        list: to_list_dto(list),
    }
}

/// The instruction that puts a list on the canvas. It extends and never
/// shelves: a line on a list is no change of topic. No session stands behind it.
pub fn show(list: &ItemList) -> (c: HudCanvasDto)
    ensures
        c.session_id is None,
        c.action == CanvasActionDto::Extend,
        c.label@ == list.name@,
        c.cards@.len() == 1,
        is_card_of(c.cards@[0], *list),
        c.offer is None,
        c.handoff is None,
{
    let mut shown: Vec<HudCardDto> = Vec::new();
    shown.push(to_list_card(list));
    HudCanvasDto {
        session_id: None,
        action: CanvasActionDto::Extend,
        label: list.name.clone(),
        cards: shown,
        offer: None,
        handoff: None,
    }
}

/// Lists have cards of their own: no two share an identifier.
pub proof fn law_lists_have_their_own_cards(a: Seq<char>, b: Seq<char>)
    ensures
        card_id(a) == card_id(b) ==> a == b,
{
    let n = "list-"@.len();
    assert(card_id(a).skip(n as int) =~= a);
    assert(card_id(b).skip(n as int) =~= b);
}

/// Who a request is made by, for the record.
pub fn actor(device: &DeviceContext) -> (s: String)
    ensures
        s@ == audit::device_actor(device.device_id@),
{
    audit::actor_of(device.device_id.as_str())
}

// ---------------------------------------------------------------------------
// Paths
// ---------------------------------------------------------------------------

/// Which path segment is not an identifier.
#[derive(Debug, Clone, Copy, PartialEq, Eq, Structural)]
pub enum IdFault {
    List,
    Item,
}

pub open spec fn fault_view(fault: IdFault) -> problem::ProblemView {
    problem::problem_of(
        400,
        ErrorCode::ValidationFailed,
        match fault {
            IdFault::List => "list id is not a ULID"@,
            IdFault::Item => "list item id is not a ULID"@,
        },
        None,
    )
}

pub fn fault_response(fault: IdFault) -> (p: ProblemDetails)
    ensures
        p@ == fault_view(fault),
{
    match fault {
        IdFault::List => problem::bad_request("list id is not a ULID"),
        IdFault::Item => problem::bad_request("list item id is not a ULID"),
    }
}

/// Why a path names no list, or no item of one.
pub open spec fn path_fault(list: Seq<char>, item: Option<Seq<char>>) -> Option<IdFault> {
    if !ids::is_ulid(list) {
        Some(IdFault::List)
    } else if item matches Some(i) && !ids::is_ulid(i) {
        Some(IdFault::Item)
    } else {
        None
    }
}

/// Read the path of a list, or of an item of one.
pub fn addressed(list: &str, item: Option<&str>) -> (r: Result<(), ProblemDetails>)
    ensures
        match (
            r,
            path_fault(
                list@,
                match item {
                    Some(i) => Some(i@),
                    None => None,
                },
            ),
        ) {
            (Ok(_), None) => true,
            (Err(e), Some(f)) => e@ == fault_view(f),
            _ => false,
        },
{
    if !ids::is_id(list) {
        return Err(fault_response(IdFault::List));
    }
    if let Some(i) = item {
        if !ids::is_id(i) {
            return Err(fault_response(IdFault::Item));
        }
    }
    Ok(())
}

// ---------------------------------------------------------------------------
// Failures
// ---------------------------------------------------------------------------

/// Why a name, a line or a change is not a list's.
#[derive(Debug)]
pub enum ListError {
    Full,
    /// Any other fault, in its own words.
    Other(String),
}

#[derive(Debug)]
pub enum ListsError {
    UnknownList(String),
    UnknownItem,
    Invalid(ListError),
    Conflict(String),
    Storage(String),
    Cancelled,
}

pub open spec fn service_problem_view(error: ListsError) -> problem::ProblemView {
    match error {
        ListsError::UnknownList(_) => problem::problem_of(
            404,
            ErrorCode::ResourceNotFound,
            "no such list"@,
            None,
        ),
        ListsError::UnknownItem => problem::problem_of(
            404,
            ErrorCode::ResourceNotFound,
            "that item is not on the list"@,
            None,
        ),
        ListsError::Invalid(ListError::Full) => problem::problem_of(
            409,
            ErrorCode::ListFull,
            "that list is full; check something off, or promote it to a document"@,
            None,
        ),
        ListsError::Invalid(ListError::Other(why)) => problem::problem_of(
            400,
            ErrorCode::ValidationFailed,
            why@,
            None,
        ),
        ListsError::Conflict(_) => problem::problem_of(
            409,
            ErrorCode::ResourceVersionConflict,
            "the list changed under this request; re-read it and try again"@,
            None,
        ),
        ListsError::Storage(_) => problem::problem_of(
            503,
            ErrorCode::ProviderUnavailable,
            "storage unavailable"@,
            None,
        ),
        ListsError::Cancelled => problem::problem_of(
            503,
            ErrorCode::ProviderUnavailable,
            "the request was cancelled"@,
            None,
        ),
    }
}

pub fn service_problem(error: ListsError) -> (p: ProblemDetails)
    ensures
        p@ == service_problem_view(error),
{
    match error {
        ListsError::UnknownList(_) => problem::not_found("no such list"),
        ListsError::UnknownItem => problem::not_found("that item is not on the list"),
        ListsError::Invalid(fault) => match fault {
            ListError::Full => problem::problem(
                409,
                ErrorCode::ListFull,
                "that list is full; check something off, or promote it to a document",
                None,
            ),
            ListError::Other(why) => problem::bad_request(why.as_str()),
        },
        ListsError::Conflict(_) => problem::problem(
            409,
            ErrorCode::ResourceVersionConflict,
            "the list changed under this request; re-read it and try again",
            None,
        ),
        ListsError::Storage(_) => problem::unavailable("storage unavailable"),
        ListsError::Cancelled => problem::unavailable("the request was cancelled"),
    }
}

/// A full list and a lost race are conflicts and not faults of the service, and
/// neither is answered like a store that is down.
pub proof fn law_races_are_not_outages(why: String, driver: String)
    ensures
        service_problem_view(ListsError::Conflict(why)).status == 409,
        service_problem_view(ListsError::Invalid(ListError::Full)).status == 409,
        service_problem_view(ListsError::Storage(driver)).status == 503,
        service_problem_view(ListsError::Storage(driver)) == service_problem_view(
            ListsError::Storage(why),
        ),
{
}

// ---------------------------------------------------------------------------
// Answers
// ---------------------------------------------------------------------------

/// All lists, in the order of the store.
pub fn index(stored: Result<Vec<ItemList>, ListsError>) -> (r: Result<
    Vec<ItemList>,
    ProblemDetails,
>)
    ensures
        match stored {
            Err(e) => r matches Err(p) && p@ == service_problem_view(e),
            Ok(all) => r == Ok::<Vec<ItemList>, ProblemDetails>(all),
        },
{
    match stored {
        Ok(all) => Ok(all),
        Err(e) => Err(service_problem(e)),
    }
}

/// What ensuring a list came to.
#[derive(Debug)]
pub enum Ensured {
    Created(ItemList),
    Existing(ItemList),
}

/// What a request is answered with where a name or a line of it is no list's:
/// `fault` says why, in its own words.
pub open spec fn bad_text_view(fault: Seq<char>) -> problem::ProblemView {
    problem::problem_of(400, ErrorCode::ValidationFailed, fault, None)
}

/// Create a list by its name, or find the one that has it. "Created" is said
/// only where this request created the list.
pub fn create(fault: Option<String>, ensured: Result<Ensured, ListsError>) -> (r: Result<
    (u16, ItemList),
    ProblemDetails,
>)
    ensures
        answers_list_creation(fault, ensured, r),
        match fault {
            Some(why) => r matches Err(p) && p@ == bad_text_view(why@),
            None => match ensured {
                Ok(Ensured::Created(l)) => r == Ok::<(u16, ItemList), ProblemDetails>((201u16, l)),
                Ok(Ensured::Existing(l)) => r == Ok::<(u16, ItemList), ProblemDetails>((200u16, l)),
                Err(e) => r matches Err(p) && p@ == service_problem_view(e),
            },
        },
{
    if let Some(why) = fault {
        return Err(problem::bad_request(why.as_str()));
    }
    match ensured {
        Ok(Ensured::Created(l)) => Ok((201, l)),
        Ok(Ensured::Existing(l)) => Ok((200, l)),
        Err(e) => Err(service_problem(e)),
    }
}

/// What a path and what the service made of a request come to: the list as it
/// now is, or what is answered.
pub open spec fn answer_of(
    list: Seq<char>,
    item: Option<Seq<char>>,
    outcome: Result<ItemList, ListsError>,
) -> Result<ItemList, problem::ProblemView> {
    match path_fault(list, item) {
        Some(f) => Err(fault_view(f)),
        None => match outcome {
            Ok(l) => Ok(l),
            Err(e) => Err(service_problem_view(e)),
        },
    }
}

/// Whether a result is the one that is due.
pub open spec fn answers(
    r: Result<ItemList, ProblemDetails>,
    due: Result<ItemList, problem::ProblemView>,
) -> bool {
    match (r, due) {
        (Ok(l), Ok(m)) => l == m,
        (Err(e), Err(p)) => e@ == p,
        _ => false,
    }
}

fn answer(list: &str, item: Option<&str>, outcome: Result<ItemList, ListsError>) -> (r: Result<
    ItemList,
    ProblemDetails,
>)
    ensures
        answers(
            r,
            answer_of(
                list@,
                match item {
                    Some(i) => Some(i@),
                    None => None,
                },
                outcome,
            ),
        ),
{
    if let Err(p) = addressed(list, item) {
        return Err(p);
    }
    match outcome {
        Ok(l) => Ok(l),
        Err(e) => Err(service_problem(e)),
    }
}

/// A list by its identifier.
pub fn get(list: &str, outcome: Result<ItemList, ListsError>) -> (r: Result<
    ItemList,
    ProblemDetails,
>)
    ensures
        answers(r, answer_of(list@, None, outcome)),
{
    answer(list, None, outcome)
}

/// Append a line. `fault` says why the text is no line, where it is none.
pub fn add_item(list: &str, fault: Option<String>, outcome: Result<ItemList, ListsError>) -> (r:
    Result<(u16, ItemList), ProblemDetails>)
    ensures
        answers_addition(list@, fault, outcome, r),
        match path_fault(list@, None) {
            Some(f) => r matches Err(p) && p@ == fault_view(f),
            None => match fault {
                Some(why) => r matches Err(p) && p@ == bad_text_view(why@),
                None => match outcome {
                    Ok(l) => r == Ok::<(u16, ItemList), ProblemDetails>((201u16, l)),
                    Err(e) => r matches Err(p) && p@ == service_problem_view(e),
                },
            },
        },
{
    if let Err(p) = addressed(list, None) {
        return Err(p);
    }
    if let Some(why) = fault {
        return Err(problem::bad_request(why.as_str()));
    }
    match outcome {
        Ok(l) => Ok((201, l)),
        Err(e) => Err(service_problem(e)),
    }
}

/// Check a line off, or clear its check.
pub fn check_item(list: &str, item: &str, outcome: Result<ItemList, ListsError>) -> (r: Result<
    ItemList,
    ProblemDetails,
>)
    ensures
        answers(r, answer_of(list@, Some(item@), outcome)),
{
    answer(list, Some(item), outcome)
}

/// Take a line off a list.
pub fn remove_item(list: &str, item: &str, outcome: Result<ItemList, ListsError>) -> (r: Result<
    ItemList,
    ProblemDetails,
>)
    ensures
        answers(r, answer_of(list@, Some(item@), outcome)),
{
    answer(list, Some(item), outcome)
}

/// What a command did.
#[derive(Debug)]
pub enum CommandEffect {
    Added(String),
    Removed(String),
    CheckedOff(String),
    Read,
}

#[derive(Debug, Clone, Copy, PartialEq, Eq, Structural)]
pub enum ListEffectDto {
    Added,
    Removed,
    CheckedOff,
    Read,
}

#[derive(Debug)]
pub struct ListCommandResponse {
    pub list: ItemList,
    pub effect: ListEffectDto,
    pub item_id: Option<String>,
}

pub open spec fn unrecognized_view() -> problem::ProblemView {
    problem::problem_of(
        422,
        ErrorCode::ListUnrecognizedCommand,
        "that is not clearly a list command; name the list explicitly"@,
        None,
    )
}

/// What an utterance is refused with where the grammar did not recognize it.
pub fn unrecognized() -> (p: ProblemDetails)
    ensures
        p@ == unrecognized_view(),
{
    problem::problem(
        422,
        ErrorCode::ListUnrecognizedCommand,
        "that is not clearly a list command; name the list explicitly",
        None,
    )
}

/// What a command is answered with, and what goes on the canvas: the list as it
/// now is. `applied` is nothing where the grammar did not recognize the
/// utterance.
pub fn command(applied: Option<Result<(ItemList, CommandEffect), ListsError>>) -> (r: Result<
    (ListCommandResponse, HudCanvasDto),
    ProblemDetails,
>)
    ensures
        answers_command(applied, r),
        match applied {
            None => r matches Err(p) && p@ == unrecognized_view(),
            Some(Err(e)) => r matches Err(p) && p@ == service_problem_view(e),
            Some(Ok((list, effect))) => r matches Ok((a, c)) && a.list == list && c.cards@.len()
                == 1 && is_card_of(c.cards@[0], list) && c.action == CanvasActionDto::Extend
                && c.session_id is None && c.label@ == list.name@ && c.offer is None
                && c.handoff is None && match effect {
                CommandEffect::Added(id) => a.effect == ListEffectDto::Added && a.item_id == Some(
                    id,
                ),
                CommandEffect::Removed(id) => a.effect == ListEffectDto::Removed && a.item_id
                    == Some(id),
                CommandEffect::CheckedOff(id) => a.effect == ListEffectDto::CheckedOff && a.item_id
                    == Some(id),
                CommandEffect::Read => a.effect == ListEffectDto::Read && a.item_id is None,
            },
        },
{
    let (list, effect) = match applied {
        None => {
            return Err(unrecognized());
        },
        Some(Err(e)) => {
            return Err(service_problem(e));
        },
        Some(Ok(done)) => done,
    };
    let (kind, item_id) = match effect {
        CommandEffect::Added(id) => (ListEffectDto::Added, Some(id)),
        CommandEffect::Removed(id) => (ListEffectDto::Removed, Some(id)),
        CommandEffect::CheckedOff(id) => (ListEffectDto::CheckedOff, Some(id)),
        CommandEffect::Read => (ListEffectDto::Read, None),
    };
    let canvas = show(&list);
    Ok((ListCommandResponse { list, effect: kind, item_id }, canvas))
}

/// A document that a list became.
#[derive(Debug)]
pub struct PromoteListResponse {
    pub artifact_id: String,
    pub version: u32,
    pub sha256: String,
    pub first_promotion: bool,
}

/// Promote a list: what is answered.
pub fn promote(list: &str, outcome: Result<PromoteListResponse, ListsError>) -> (r: Result<
    PromoteListResponse,
    ProblemDetails,
>)
    ensures
        match path_fault(list@, None) {
            Some(f) => r matches Err(p) && p@ == fault_view(f),
            None => match outcome {
                Ok(a) => r == Ok::<PromoteListResponse, ProblemDetails>(a),
                Err(e) => r matches Err(p) && p@ == service_problem_view(e),
            },
        },
{
    if let Err(p) = addressed(list, None) {
        return Err(p);
    }
    match outcome {
        Ok(a) => Ok(a),
        Err(e) => Err(service_problem(e)),
    }
}

/// A card shows the list it is of: its id, its name, and its items in their
/// order with their marks.
pub proof fn law_a_card_shows_its_list(card: HudCardDto, list: ItemList, i: int)
    requires
        is_card_of(card, list),
    ensures
        card matches HudCardDto::List { id, list_id, list: shown } && {
            &&& text::stripped(id@, "list-"@) == Some(list.id@)
            &&& list_id@ == list.id@
            &&& shown.id@ == list.id@
            &&& shown.name@ == list.name@
            &&& shown.items@.len() == list.items@.len()
            &&& 0 <= i < list.items@.len() ==> shown.items@[i].id@ == list.items@[i].id@
                && shown.items@[i].text@ == list.items@[i].text@ && shown.items@[i].checked
                == list.items@[i].checked
        },
{
    text::law_a_prefix_is_taken_off(seq![], "list-"@, list.id@);
    if let HudCardDto::List { id, list_id, list: shown } = card {
        if 0 <= i < list.items@.len() {
            assert(same_item(shown.items@[i], list.items@[i]));
        }
    }
}

/// A change to a list comes back as the service left it exactly where the ids of
/// the path are ids and the service carried it out. The list's id is looked at
/// before the item's, and an id that is none is the caller's fault whatever the
/// service said.
pub proof fn law_a_list_answer_is_the_services(
    list: Seq<char>,
    item: Option<Seq<char>>,
    outcome: Result<ItemList, ListsError>,
)
    ensures
        answer_of(list, item, outcome) is Ok <==> {
            &&& ids::is_ulid(list)
            &&& item matches Some(i) ==> ids::is_ulid(i)
            &&& outcome is Ok
        },
        answer_of(list, item, outcome) matches Ok(l) ==> outcome == Ok::<ItemList, ListsError>(l),
        !ids::is_ulid(list) ==> path_fault(list, item) == Some(IdFault::List),
        ids::is_ulid(list) && (item matches Some(i) && !ids::is_ulid(i)) ==> path_fault(list, item)
            == Some(IdFault::Item),
        answer_of(list, item, outcome) matches Err(p) ==> (path_fault(list, item) is Some ==> p.status
            == 400),
{
}

/// What the service could not do is answered by whose fault it is: what is not
/// there is not found, a full list and a lost race are conflicts, an unfit text
/// is the caller's, and storage and cancellation are the service's.
pub proof fn law_service_errors_are_told_apart(e: ListsError)
    ensures
        service_problem_view(e).status == (match e {
            ListsError::UnknownList(_) => 404u16,
            ListsError::UnknownItem => 404u16,
            ListsError::Invalid(ListError::Full) => 409u16,
            ListsError::Invalid(ListError::Other(_)) => 400u16,
            ListsError::Conflict(_) => 409u16,
            ListsError::Storage(_) => 503u16,
            ListsError::Cancelled => 503u16,
        }),
        e matches ListsError::Invalid(ListError::Other(why)) ==> service_problem_view(e).title == why@,
        service_problem_view(e).code is ListFull <==> (e matches ListsError::Invalid(ListError::Full)),
        unrecognized_view().status == 422,
{
}

/// What a wish for a list is answered with.
pub open spec fn answers_list_creation(
    fault: Option<String>,
    ensured: Result<Ensured, ListsError>,
    r: Result<(u16, ItemList), ProblemDetails>,
) -> bool {
    match fault {
        Some(why) => r matches Err(p) && p@ == bad_text_view(why@),
        None => match ensured {
            Ok(Ensured::Created(l)) => r == Ok::<(u16, ItemList), ProblemDetails>((201u16, l)),
            Ok(Ensured::Existing(l)) => r == Ok::<(u16, ItemList), ProblemDetails>((200u16, l)),
            Err(e) => r matches Err(p) && p@ == service_problem_view(e),
        },
    }
}

/// What a new item is answered with.
pub open spec fn answers_addition(
    list: Seq<char>,
    fault: Option<String>,
    outcome: Result<ItemList, ListsError>,
    r: Result<(u16, ItemList), ProblemDetails>,
) -> bool {
    match path_fault(list, None) {
        Some(f) => r matches Err(p) && p@ == fault_view(f),
        None => match fault {
            Some(why) => r matches Err(p) && p@ == bad_text_view(why@),
            None => match outcome {
                Ok(l) => r == Ok::<(u16, ItemList), ProblemDetails>((201u16, l)),
                Err(e) => r matches Err(p) && p@ == service_problem_view(e),
            },
        },
    }
}

/// What a spoken command is answered with.
pub open spec fn answers_command(
    applied: Option<Result<(ItemList, CommandEffect), ListsError>>,
    r: Result<(ListCommandResponse, HudCanvasDto), ProblemDetails>,
) -> bool {
    match applied {
        None => r matches Err(p) && p@ == unrecognized_view(),
        Some(Err(e)) => r matches Err(p) && p@ == service_problem_view(e),
        Some(Ok((list, effect))) => r matches Ok((a, c)) && a.list == list && c.cards@.len() == 1
            && is_card_of(c.cards@[0], list) && c.action == CanvasActionDto::Extend
            && c.label@ == list.name@ && match effect {
            CommandEffect::Added(id) => a.effect == ListEffectDto::Added && a.item_id == Some(id),
            CommandEffect::Removed(id) => a.effect == ListEffectDto::Removed && a.item_id == Some(id),
            CommandEffect::CheckedOff(id) => a.effect == ListEffectDto::CheckedOff && a.item_id
                == Some(id),
            CommandEffect::Read => a.effect == ListEffectDto::Read && a.item_id is None,
        },
    }
}

/// A list that was made now is told from one that was there, and a new item from
/// neither. Text that is unfit is refused before the service is heard.
pub proof fn law_lists_and_items_are_answered_as_made(
    fault: Option<String>,
    ensured: Result<Ensured, ListsError>,
    made: Result<(u16, ItemList), ProblemDetails>,
    list: Seq<char>,
    outcome: Result<ItemList, ListsError>,
    added: Result<(u16, ItemList), ProblemDetails>,
)
    requires
        answers_list_creation(fault, ensured, made),
        answers_addition(list, fault, outcome, added),
    ensures
        made is Ok <==> fault is None && ensured is Ok,
        made matches Ok((status, l)) ==> {
            &&& status == 201 <==> ensured->Ok_0 is Created
            &&& status == 200 <==> ensured->Ok_0 is Existing
            &&& ensured->Ok_0 == Ensured::Created(l) || ensured->Ok_0 == Ensured::Existing(l)
        },
        added is Ok <==> ids::is_ulid(list) && fault is None && outcome is Ok,
        added matches Ok((status, l)) ==> status == 201 && outcome == Ok::<ItemList, ListsError>(l),
        fault matches Some(why) ==> made is Err && made->Err_0.status == 400 && made->Err_0.title@
            == why@,
        fault is Some || !ids::is_ulid(list) ==> added is Err && added->Err_0.status == 400,
{
}

/// A spoken command that was carried out is answered with the list as it is now,
/// what was done to it and to which item, and the list's own card; reading a list
/// names no item.
pub proof fn law_commands_are_answered_with_their_effect(
    applied: Option<Result<(ItemList, CommandEffect), ListsError>>,
    r: Result<(ListCommandResponse, HudCanvasDto), ProblemDetails>,
)
    requires
        answers_command(applied, r),
    ensures
        r is Ok <==> applied is Some && applied->0 is Ok,
        applied is None ==> r->Err_0.status == 422,
        r matches Ok((a, c)) ==> {
            let (list, effect) = applied->0->Ok_0;
            &&& a.list == list
            &&& a.effect is Added <==> effect is Added
            &&& a.effect is Removed <==> effect is Removed
            &&& a.effect is CheckedOff <==> effect is CheckedOff
            &&& a.effect is Read <==> effect is Read
            &&& effect matches CommandEffect::Added(id) ==> a.item_id == Some(id)
            &&& effect matches CommandEffect::Removed(id) ==> a.item_id == Some(id)
            &&& effect matches CommandEffect::CheckedOff(id) ==> a.item_id == Some(id)
            &&& effect is Read ==> a.item_id is None
            &&& c.cards@.len() == 1 && is_card_of(c.cards@[0], list)
            &&& c.label@ == list.name@
        },
{
}

/// The codes that a client of the lists branches on, whatever the text.
pub proof fn law_list_problems_have_their_codes(fault: IdFault, why: Seq<char>, said: String)
    ensures
        unrecognized_view().status == 422 && unrecognized_view().code is ListUnrecognizedCommand,
        fault_view(fault).status == 400 && fault_view(fault).code is ValidationFailed,
        bad_text_view(why).status == 400 && bad_text_view(why).code is ValidationFailed,
        service_problem_view(ListsError::UnknownItem).status == 404 && service_problem_view(ListsError::UnknownItem).code is ResourceNotFound,
        service_problem_view(ListsError::Conflict(said)).status == 409 && service_problem_view(ListsError::Conflict(said)).code is ResourceVersionConflict,
        service_problem_view(ListsError::Storage(said)).status == 503 && service_problem_view(ListsError::Storage(said)).code is ProviderUnavailable,
{
}

} // verus!
