use product_scraper::listing::ProductInfo;
use product_scraper::persist::{
    ItemRow, Persist, PersistAction, PersistEvent, PersistFailure, PictureRow, Stage,
};
use product_scraper::price::Price;

fn mock(number: u32, link: &str, img: &str) -> ProductInfo {
    ProductInfo {
        name: format!("mock product {}", number),
        details_link: link.to_string(),
        price: Price { text: "123.12".to_string(), currency: "€".to_string() },
        img: img.to_string(),
    }
}

/// A store in memory. An insert whose number, counted from 0 over both
/// tables, is in `failing` fails; every other insert succeeds.
struct Store {
    items: Vec<(i32, ItemRow)>,
    pictures: Vec<PictureRow>,
    inserts: usize,
    failing: Vec<usize>,
}

fn store(failing: &[usize]) -> Store {
    Store { items: Vec::new(), pictures: Vec::new(), inserts: 0, failing: failing.to_vec() }
}

fn save(store: &mut Store, infos: Vec<ProductInfo>, type_: &str, now: i64) -> Persist {
    let (mut writer, mut action) = Persist::start(infos, type_, now);
    loop {
        let fails = store.failing.contains(&store.inserts);
        let event = match action {
            PersistAction::InsertItem(row) => {
                store.inserts += 1;
                if fails {
                    PersistEvent::Failed
                } else {
                    let id = 100 + store.items.len() as i32;
                    store.items.push((id, row));
                    PersistEvent::ItemInserted(id)
                }
            }
            PersistAction::InsertPicture(row) => {
                store.inserts += 1;
                if fails {
                    PersistEvent::Failed
                } else {
                    store.pictures.push(row);
                    PersistEvent::PictureInserted
                }
            }
            PersistAction::Finish => return writer,
        };
        let next = writer.step(event, now);
        writer = next.0;
        action = next.1;
    }
}

#[test]
fn insert_mock_info() {
    let info = mock(1, "https://foo.bar/aaa", "https://doesntexist.com/foo.png");
    let mut store = store(&[]);
    let writer = save(&mut store, vec![info], "mock", 1739368334742824);
    assert!(writer.is_done());
    assert_eq!(writer.saved(), 1);
    assert_eq!(writer.failures(), &Vec::<PersistFailure>::new());
    assert_eq!(
        store.items,
        vec![(
            100,
            ItemRow {
                name: "mock product 1".to_string(),
                price: "123.12".to_string(),
                price_currency: "€".to_string(),
                vendor_link: "https://foo.bar/aaa".to_string(),
                type_: "mock".to_string(),
                added_timestamp: 1739368334742824,
                descr: "".to_string(),
            }
        )]
    );
    assert_eq!(
        store.pictures,
        vec![PictureRow { item_id: 100, url: "https://doesntexist.com/foo.png".to_string() }]
    );
    assert_eq!(store.items[0].1.price.parse::<f32>().unwrap(), 123.12_f32);
}

#[test]
fn insert_2_mock_infos() {
    let info1 = mock(1, "https://foo.bar/aaa", "https://doesntexist.com/foo.png");
    let info2 = mock(2, "https://foo.bar/bbb", "https://doesntexist.com/foo2.png");
    let mut store = store(&[]);
    let writer = save(&mut store, vec![info1, info2], "mock", 5);
    assert_eq!(writer.saved(), 2);
    assert_eq!(store.items.len(), 2);
    assert_eq!(store.items[0].1.name, "mock product 1");
    assert_eq!(store.items[1].1.name, "mock product 2");
    assert_eq!(store.items[1].1.vendor_link, "https://foo.bar/bbb");
    assert_eq!(store.items[1].1.type_, "mock");
    assert_eq!(
        store.pictures,
        vec![
            PictureRow { item_id: 100, url: "https://doesntexist.com/foo.png".to_string() },
            PictureRow { item_id: 101, url: "https://doesntexist.com/foo2.png".to_string() },
        ]
    );
}

#[test]
fn failed_picture_leaves_the_item_and_the_batch_goes_on() {
    let info1 = mock(1, "https://foo.bar/aaa", "https://doesntexist.com/foo.png");
    let info2 = mock(2, "https://foo.bar/bbb", "https://doesntexist.com/foo2.png");
    let mut store = store(&[1]);
    let writer = save(&mut store, vec![info1, info2], "mock", 5);
    assert_eq!(store.items.len(), 2);
    assert_eq!(store.items[0].1.vendor_link, "https://foo.bar/aaa");
    assert_eq!(store.items[1].1.vendor_link, "https://foo.bar/bbb");
    assert_eq!(
        store.pictures,
        vec![PictureRow { item_id: 101, url: "https://doesntexist.com/foo2.png".to_string() }]
    );
    assert_eq!(writer.saved(), 1);
    assert_eq!(writer.failures(), &vec![PersistFailure { index: 0, stage: Stage::Picture }]);
    assert_eq!(writer.link_at(0), Some(&"https://foo.bar/aaa".to_string()));
    assert!(writer.is_done());
}

#[test]
fn failed_item_gets_no_picture_and_the_batch_goes_on() {
    let infos = vec![
        mock(1, "https://foo.bar/aaa", "a.png"),
        mock(2, "https://foo.bar/bbb", "b.png"),
        mock(3, "https://foo.bar/ccc", "c.png"),
    ];
    let mut store = store(&[2]);
    let writer = save(&mut store, infos, "ring", 5);
    assert_eq!(store.inserts, 5);
    let names: Vec<&str> = store.items.iter().map(|(_, row)| row.name.as_str()).collect();
    assert_eq!(names, vec!["mock product 1", "mock product 3"]);
    assert_eq!(
        store.pictures,
        vec![
            PictureRow { item_id: 100, url: "a.png".to_string() },
            PictureRow { item_id: 101, url: "c.png".to_string() },
        ]
    );
    assert_eq!(writer.saved(), 2);
    assert_eq!(writer.failures(), &vec![PersistFailure { index: 1, stage: Stage::Item }]);
    assert_eq!(writer.link_at(1), Some(&"https://foo.bar/bbb".to_string()));
    assert_eq!(writer.link_at(3), None);
}

#[test]
fn every_insert_failing_still_tries_every_product() {
    let infos = vec![mock(1, "l1", "a.png"), mock(2, "l2", "b.png")];
    let mut store = store(&[0, 1]);
    let writer = save(&mut store, infos, "ring", 5);
    assert_eq!(store.inserts, 2);
    assert_eq!(store.items.len(), 0);
    assert_eq!(writer.saved(), 0);
    assert_eq!(
        writer.failures(),
        &vec![
            PersistFailure { index: 0, stage: Stage::Item },
            PersistFailure { index: 1, stage: Stage::Item },
        ]
    );
}

#[test]
fn empty_batch_is_done_at_once() {
    let (writer, action) = Persist::start(Vec::new(), "ring", 5);
    assert_eq!(action, PersistAction::Finish);
    assert!(writer.is_done());
    assert_eq!(writer.saved(), 0);
    let (writer, action) = writer.step(PersistEvent::ItemInserted(1), 6);
    assert_eq!(action, PersistAction::Finish);
    assert_eq!(writer.saved(), 0);
    assert_eq!(writer.failures(), &Vec::<PersistFailure>::new());
}

#[test]
fn event_that_does_not_answer_the_insert_gives_the_product_up() {
    let infos = vec![mock(1, "l1", "a.png"), mock(2, "l2", "b.png")];
    let (writer, _) = Persist::start(infos, "ring", 5);
    let (writer, action) = writer.step(PersistEvent::PictureInserted, 6);
    assert_eq!(writer.failures(), &vec![PersistFailure { index: 0, stage: Stage::Item }]);
    match action {
        PersistAction::InsertItem(row) => {
            assert_eq!(row.name, "mock product 2");
            assert_eq!(row.added_timestamp, 6);
        }
        other => panic!("unexpected action {:?}", other),
    }
    let (writer, _) = writer.step(PersistEvent::ItemInserted(9), 7);
    let (writer, action) = writer.step(PersistEvent::ItemInserted(10), 8);
    assert_eq!(action, PersistAction::Finish);
    assert_eq!(
        writer.failures(),
        &vec![
            PersistFailure { index: 0, stage: Stage::Item },
            PersistFailure { index: 1, stage: Stage::Picture },
        ]
    );
}

#[test]
fn picture_refers_to_the_identifier_reported() {
    let (writer, _) = Persist::start(vec![mock(1, "l1", "a.png")], "ring", 5);
    let (_, action) = writer.step(PersistEvent::ItemInserted(-42), 6);
    assert_eq!(
        action,
        PersistAction::InsertPicture(PictureRow { item_id: -42, url: "a.png".to_string() })
    );
}

#[test]
fn item_rows_carry_the_time_of_their_insert() {
    let infos = vec![mock(1, "l1", "a.png"), mock(2, "l2", "b.png")];
    let (writer, first) = Persist::start(infos, "ring", 1739368334742824);
    match first {
        PersistAction::InsertItem(row) => {
            assert_eq!(row.name, "mock product 1");
            assert_eq!(row.type_, "ring");
            assert_eq!(row.added_timestamp, 1739368334742824);
        }
        other => panic!("unexpected action {:?}", other),
    }
    let (writer, _) = writer.step(PersistEvent::ItemInserted(1), 1739368334742900);
    let (_, second) = writer.step(PersistEvent::PictureInserted, 1739368334743000);
    match second {
        PersistAction::InsertItem(row) => {
            assert_eq!(row.name, "mock product 2");
            assert_eq!(row.added_timestamp, 1739368334743000);
        }
        other => panic!("unexpected action {:?}", other),
    }
}

#[test]
fn time_before_the_epoch_is_carried_as_it_is() {
    let (_, first) = Persist::start(vec![mock(1, "l1", "a.png")], "ring", -5);
    match first {
        PersistAction::InsertItem(row) => assert_eq!(row.added_timestamp, -5),
        other => panic!("unexpected action {:?}", other),
    }
}
