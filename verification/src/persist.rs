//! Writing a batch of products to the store.
//!
//! Each product is written as one item row and one picture row that refers to
//! it. The writer is a state machine: its user holds the connection and the
//! clock, performs the insert that the machine names, and reports whether it
//! succeeded together with the time. A failed insert ends the work on that
//! product only; what was written stays.

use vstd::prelude::*;
use crate::listing::{infos_view, ProductInfo, ProductInfoView};

verus! {

/// A row of the item table, without the identifier that the store assigns.
/// The number of the price is the one that the text `price` denotes.
#[derive(Debug, Clone, PartialEq, Eq)]
pub struct ItemRow {
    pub name: String,
    pub price: String,
    pub price_currency: String,
    pub vendor_link: String,
    pub type_: String,
    /// Microseconds since the epoch.
    pub added_timestamp: i64,
    pub descr: String,
}

/// An item row, as plain values.
pub struct ItemRowView {
    pub name: Seq<char>,
    pub price: Seq<char>,
    pub price_currency: Seq<char>,
    pub vendor_link: Seq<char>,
    pub type_: Seq<char>,
    pub added_timestamp: i64,
    pub descr: Seq<char>,
}

impl View for ItemRow {
    type V = ItemRowView;

    open spec fn view(&self) -> ItemRowView {
        ItemRowView {
            name: self.name@,
            price: self.price@,
            price_currency: self.price_currency@,
            vendor_link: self.vendor_link@,
            type_: self.type_@,
            added_timestamp: self.added_timestamp,
            descr: self.descr@,
        }
    }
}

/// A row of the picture table.
#[derive(Debug, Clone, PartialEq, Eq)]
pub struct PictureRow {
    pub item_id: i32,
    pub url: String,
}

/// A picture row, as plain values.
pub struct PictureRowView {
    pub item_id: i32,
    pub url: Seq<char>,
}

impl View for PictureRow {
    type V = PictureRowView;

    open spec fn view(&self) -> PictureRowView {
        PictureRowView { item_id: self.item_id, url: self.url@ }
    }
}

/// What the writer asks of the store.
#[derive(Debug, Clone, PartialEq, Eq)]
pub enum PersistAction {
    /// Insert this item row and report the identifier assigned.
    InsertItem(ItemRow),
    /// Insert this picture row.
    InsertPicture(PictureRow),
    /// Nothing more.
    Finish,
}

/// An action, as plain values.
pub enum PersistActionView {
    InsertItem(ItemRowView),
    InsertPicture(PictureRowView),
    Finish,
}

impl View for PersistAction {
    type V = PersistActionView;

    open spec fn view(&self) -> PersistActionView {
        match self {
            PersistAction::InsertItem(row) => PersistActionView::InsertItem(row@),
            PersistAction::InsertPicture(row) => PersistActionView::InsertPicture(row@),
            PersistAction::Finish => PersistActionView::Finish,
        }
    }
}

/// What the store reports to the writer.
#[derive(Debug, Clone, Copy, PartialEq, Eq)]
pub enum PersistEvent {
    /// The item row was inserted under this identifier.
    ItemInserted(i32),
    /// The picture row was inserted.
    PictureInserted,
    /// The insert failed.
    Failed,
}

/// The insert that the writer waits for.
#[derive(Debug, Clone, Copy, PartialEq, Eq)]
pub enum Pending {
    /// The item row of the current product.
    Item,
    /// The picture row of the current product, whose item row has this
    /// identifier.
    Picture(i32),
    /// None: the batch is done.
    Nothing,
}

/// The row that an insert failed on.
#[derive(Debug, Clone, Copy, PartialEq, Eq)]
pub enum Stage {
    Item,
    Picture,
}

/// A product that was not written in full.
#[derive(Debug, Clone, Copy, PartialEq, Eq)]
pub struct PersistFailure {
    /// The position of the product in the batch.
    pub index: usize,
    /// The row that was not written. Where it is the picture, the item row is
    /// in the store without a picture.
    pub stage: Stage,
}

/// The writer of one batch.
#[derive(Debug)]
pub struct Persist {
    infos: Vec<ProductInfo>,
    type_: String,
    index: usize,
    awaiting: Pending,
    saved: usize,
    failures: Vec<PersistFailure>,
}

/// The state of a writer.
pub struct PersistView {
    /// The batch.
    pub infos: Seq<ProductInfoView>,
    /// The category tag that every item row carries.
    pub type_: Seq<char>,
    /// The position of the current product; the length of the batch once it is
    /// done.
    pub index: nat,
    pub awaiting: Pending,
    /// The number of products written in full.
    pub saved: nat,
    /// The products not written in full, in the order of the batch.
    pub failures: Seq<PersistFailure>,
}

/// The item row for a product.
pub open spec fn item_row(info: ProductInfoView, type_: Seq<char>, now: i64) -> ItemRowView {
    ItemRowView {
        name: info.name,
        price: info.price.text,
        price_currency: info.price.currency,
        vendor_link: info.details_link,
        type_,
        added_timestamp: now,
        descr: Seq::<char>::empty(),
    }
}

/// The picture row for a product whose item row has the identifier `item_id`.
pub open spec fn picture_row(info: ProductInfoView, item_id: i32) -> PictureRowView {
    PictureRowView { item_id, url: info.img }
}

/// The writer before its first insert.
pub open spec fn opened(infos: Seq<ProductInfoView>, type_: Seq<char>) -> PersistView {
    PersistView {
        infos,
        type_,
        index: 0,
        awaiting: if infos.len() == 0 {
            Pending::Nothing
        } else {
            Pending::Item
        },
        saved: 0,
        failures: Seq::<PersistFailure>::empty(),
    }
}

/// The writer moved on to the product after the current one.
pub open spec fn moved_on(state: PersistView) -> PersistView {
    PersistView {
        index: state.index + 1,
        awaiting: if state.index + 1 < state.infos.len() {
            Pending::Item
        } else {
            Pending::Nothing
        },
        ..state
    }
}

/// The writer after giving up the current product at `stage`.
pub open spec fn given_up(state: PersistView, stage: Stage) -> PersistView {
    moved_on(
        PersistView {
            failures: state.failures.push(
                PersistFailure { index: state.index as usize, stage },
            ),
            ..state
        },
    )
}

/// The transition of the writer. An item row inserted is followed by its
/// picture row; a picture row inserted completes the product. A failure, or an
/// event that does not answer the insert asked for, gives up the current
/// product and moves on to the next.
pub open spec fn persisted(state: PersistView, event: PersistEvent) -> PersistView {
    match (state.awaiting, event) {
        (Pending::Nothing, _) => state,
        (Pending::Item, PersistEvent::ItemInserted(id)) => PersistView {
            awaiting: Pending::Picture(id),
            ..state
        },
        (Pending::Item, _) => given_up(state, Stage::Item),
        (Pending::Picture(_), PersistEvent::PictureInserted) => moved_on(
            PersistView { saved: state.saved + 1, ..state },
        ),
        (Pending::Picture(_), _) => given_up(state, Stage::Picture),
    }
}

/// The insert that a writer in the given state asks for, for an item row with
/// the time `now`.
pub open spec fn asked(state: PersistView, now: i64) -> PersistActionView {
    match state.awaiting {
        Pending::Item => PersistActionView::InsertItem(
            item_row(state.infos[state.index as int], state.type_, now),
        ),
        Pending::Picture(id) => PersistActionView::InsertPicture(
            picture_row(state.infos[state.index as int], id),
        ),
        Pending::Nothing => PersistActionView::Finish,
    }
}

/// What holds of every writer: the current product is in the batch while an
/// insert is waited for; every product before the current one was either
/// written in full or given up.
pub open spec fn consistent(state: PersistView) -> bool {
    &&& state.index <= state.infos.len()
    &&& state.awaiting == Pending::Nothing <==> state.index == state.infos.len()
    &&& state.saved + state.failures.len() == state.index
}

impl View for Persist {
    type V = PersistView;

    closed spec fn view(&self) -> PersistView {
        PersistView {
            infos: infos_view(self.infos@),
            type_: self.type_@,
            index: self.index as nat,
            awaiting: self.awaiting,
            saved: self.saved as nat,
            failures: self.failures@,
        }
    }
}

impl Persist {
    /// Every writer is consistent.
    #[verifier::type_invariant]
    spec fn inv(self) -> bool {
        consistent(self@)
    }

    /// The insert that the writer asks for.
    fn ask(&self, now: i64) -> (action: PersistAction)
        ensures
            action@ == asked(self@, now),
    {
        proof {
            use_type_invariant(self);
        }
        match self.awaiting {
            Pending::Item => {
                let info = &self.infos[self.index];
                PersistAction::InsertItem(
                    ItemRow {
                        name: info.name.clone(),
                        price: info.price.text.clone(),
                        price_currency: info.price.currency.clone(),
                        vendor_link: info.details_link.clone(),
                        type_: self.type_.clone(),
                        added_timestamp: now,
                        descr: String::new(),
                    },
                )
            },
            Pending::Picture(id) => {
                let info = &self.infos[self.index];
                PersistAction::InsertPicture(PictureRow { item_id: id, url: info.img.clone() })
            },
            Pending::Nothing => PersistAction::Finish,
        }
    }

    /// A writer for the batch `infos` under the category tag `type_`, and its
    /// first insert, with `now` as the time of the item row.
    pub fn start(infos: Vec<ProductInfo>, type_: &str, now: i64) -> (out: (
        Persist,
        PersistAction,
    ))
        ensures
            out.0@ == opened(infos_view(infos@), type_@),
            out.1@ == asked(out.0@, now),
            consistent(out.0@),
    {
        let awaiting = if infos.len() == 0 {
            Pending::Nothing
        } else {
            Pending::Item
        };
        let writer = Persist {
            infos,
            type_: type_.to_owned(),
            index: 0,
            awaiting,
            saved: 0,
            failures: Vec::new(),
        };
        let action = writer.ask(now);
        (writer, action)
    }

    /// The writer after `event`, and the next insert, with `now` as the time
    /// of an item row.
    pub fn step(self, event: PersistEvent, now: i64) -> (out: (Persist, PersistAction))
        ensures
            out.0@ == persisted(self@, event),
            out.1@ == asked(out.0@, now),
            consistent(out.0@),
    {
        proof {
            use_type_invariant(&self);
        }
        let Persist { infos, type_, index, awaiting, saved, mut failures } = self;
        assert(infos_view(infos@).len() == infos@.len());
        assert(awaiting != Pending::Nothing ==> index < infos.len());
        assert(saved <= index);
        let writer = match (awaiting, event) {
            (Pending::Nothing, _) => Persist { infos, type_, index, awaiting, saved, failures },
            (Pending::Item, PersistEvent::ItemInserted(id)) => Persist {
                infos,
                type_,
                index,
                awaiting: Pending::Picture(id),
                saved,
                failures,
            },
            (Pending::Picture(_), PersistEvent::PictureInserted) => {
                let awaiting = if index + 1 < infos.len() {
                    Pending::Item
                } else {
                    Pending::Nothing
                };
                Persist { infos, type_, index: index + 1, awaiting, saved: saved + 1, failures }
            },
            (Pending::Item, _) => {
                failures.push(PersistFailure { index, stage: Stage::Item });
                let awaiting = if index + 1 < infos.len() {
                    Pending::Item
                } else {
                    Pending::Nothing
                };
                Persist { infos, type_, index: index + 1, awaiting, saved, failures }
            },
            (Pending::Picture(_), _) => {
                failures.push(PersistFailure { index, stage: Stage::Picture });
                let awaiting = if index + 1 < infos.len() {
                    Pending::Item
                } else {
                    Pending::Nothing
                };
                Persist { infos, type_, index: index + 1, awaiting, saved, failures }
            },
        };
        let action = writer.ask(now);
        (writer, action)
    }

    /// Whether the batch is done.
    pub fn is_done(&self) -> (done: bool)
        ensures
            done == (self@.awaiting == Pending::Nothing),
            done == (self@.index == self@.infos.len()),
    {
        proof {
            use_type_invariant(self);
        }
        match self.awaiting {
            Pending::Nothing => true,
            _ => false,
        }
    }

    /// The number of products written in full.
    pub fn saved(&self) -> (saved: usize)
        ensures
            saved == self@.saved,
    {
        self.saved
    }

    /// The products not written in full, in the order of the batch.
    pub fn failures(&self) -> (failures: &Vec<PersistFailure>)
        ensures
            failures@ == self@.failures,
    {
        &self.failures
    }

    /// The link of the product at `index` of the batch, for a report of a
    /// failure.
    pub fn link_at(&self, index: usize) -> (link: Option<&String>)
        ensures
            match link {
                Some(text) => index < self@.infos.len() && text@
                    == self@.infos[index as int].details_link,
                None => index >= self@.infos.len(),
            },
    {
        if index < self.infos.len() {
            Some(&self.infos[index].details_link)
        } else {
            None
        }
    }
}

/// A step keeps the writer consistent and the batch as it is.
pub proof fn lemma_step_keeps_consistent(state: PersistView, event: PersistEvent)
    requires
        consistent(state),
    ensures
        consistent(persisted(state, event)),
        persisted(state, event).infos == state.infos,
        persisted(state, event).type_ == state.type_,
{
}

/// A failed insert gives up the current product only: the failure is noted,
/// what was written before is still counted, and the writer moves on to the
/// item row of the next product, where there is one.
pub proof fn lemma_failure_moves_on(state: PersistView, now: i64)
    requires
        consistent(state),
        state.awaiting != Pending::Nothing,
    ensures
        persisted(state, PersistEvent::Failed).index == state.index + 1,
        persisted(state, PersistEvent::Failed).saved == state.saved,
        persisted(state, PersistEvent::Failed).failures == state.failures.push(
            PersistFailure {
                index: state.index as usize,
                stage: if state.awaiting is Picture {
                    Stage::Picture
                } else {
                    Stage::Item
                },
            },
        ),
        state.index + 1 < state.infos.len() ==> asked(persisted(state, PersistEvent::Failed), now)
            == PersistActionView::InsertItem(
            item_row(state.infos[state.index as int + 1], state.type_, now),
        ),
        state.index + 1 == state.infos.len() ==> asked(persisted(state, PersistEvent::Failed), now)
            == PersistActionView::Finish,
{
}

/// A product is counted as written once its picture row is inserted after its
/// item row, and the picture row refers to the identifier that the store
/// reported for the item row.
pub proof fn lemma_product_written_in_two_steps(state: PersistView, id: i32, now: i64)
    requires
        consistent(state),
        state.awaiting == Pending::Item,
    ensures
        ({
            let item_in = persisted(state, PersistEvent::ItemInserted(id));
            let both_in = persisted(item_in, PersistEvent::PictureInserted);
            &&& asked(item_in, now) == PersistActionView::InsertPicture(
                picture_row(state.infos[state.index as int], id),
            )
            &&& item_in.saved == state.saved
            &&& both_in.saved == state.saved + 1
            &&& both_in.failures == state.failures
            &&& both_in.index == state.index + 1
        }),
{
}

/// The count of products written grows by one where a picture row that was
/// waited for is inserted, and with no other event.
pub proof fn lemma_saved_counts_pictures(state: PersistView, event: PersistEvent)
    requires
        consistent(state),
    ensures
        persisted(state, event).saved == if state.awaiting is Picture && event
            == PersistEvent::PictureInserted {
            state.saved + 1
        } else {
            state.saved
        },
{
}

} // verus!
