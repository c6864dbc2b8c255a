use vstd::prelude::*;
use vstd::string::StringSliceAdditionalSpecFns;

verus! {

/// How many depth channels one subscription message asks for at most.
pub const WEBSOCKET_CHUNK_SIZE: usize = 100;

/// A tradable instrument of the venue, such as `LTC-BTC`.
#[derive(Debug, PartialEq, Clone)]
pub struct Instrument {
    pub instrument_id: String,
}

/// The `Debug` rendering of a list of strings: each item quoted and escaped,
/// separated by `, `, in brackets.
pub uninterp spec fn debug_list(items: Seq<Seq<char>>) -> Seq<char>;

/// The instrument ids of a JSON array of objects, each read from the
/// object's string field `instrument_id`; `None` when the text is no such array.
pub uninterp spec fn instrument_ids_in(json: Seq<char>) -> Option<Seq<Seq<char>>>;

/// Relies on the `Debug` impl of `Vec<String>` (through `format!`): the
/// rendering of the list, which depends on the items alone.
#[verifier::external_body]
fn format_list(items: &Vec<String>) -> (r: String)
    ensures
        r@ == debug_list(items@.map_values(|s: String| s@)),
{
    format!("{:?}", items)
}

/// Relies on `serde_json::from_str` into a list of `serde_json::Value`, and
/// on `Value::get` and `Value::as_str` to read each element's
/// `instrument_id` string. The result depends on the text alone.
#[verifier::external_body]
fn read_instrument_ids(json: &str) -> (r: Option<Vec<String>>)
    ensures
        match instrument_ids_in(json@) {
            Some(ids) => r matches Some(v) && v@.map_values(|s: String| s@) == ids,
            None => r is None,
        },
{
    let values: Vec<serde_json::Value> = serde_json::from_str(json).ok()?;
    values.iter().map(|v| v.get("instrument_id").and_then(|x| x.as_str()).map(String::from)).collect()
}

/// The depth channel of an instrument.
pub open spec fn depth_channel(id: Seq<char>) -> Seq<char> {
    "spot/depth:"@ + id
}

/// The message subscribing to the depth channels of `ids`.
pub open spec fn subscribe_message(ids: Seq<Seq<char>>) -> Seq<char> {
    "{\"op\": \"subscribe\", \"args\": "@ + debug_list(ids.map_values(|id: Seq<char>| depth_channel(id)))
        + "}"@
}

/// The subscription messages for `ids`: one per run of at most
/// `WEBSOCKET_CHUNK_SIZE` instruments, in order.
pub open spec fn subscription_messages(ids: Seq<Seq<char>>) -> Seq<Seq<char>>
    decreases ids.len(),
{
    if ids.len() == 0 {
        Seq::empty()
    } else if ids.len() <= WEBSOCKET_CHUNK_SIZE {
        seq![subscribe_message(ids)]
    } else {
        seq![subscribe_message(ids.take(WEBSOCKET_CHUNK_SIZE as int))] + subscription_messages(
            ids.skip(WEBSOCKET_CHUNK_SIZE as int),
        )
    }
}

pub open spec fn ids_of(instruments: Seq<Instrument>) -> Seq<Seq<char>> {
    instruments.map_values(|i: Instrument| i.instrument_id@)
}

pub open spec fn views(v: Seq<String>) -> Seq<Seq<char>> {
    v.map_values(|s: String| s@)
}

/// The message subscribing to the depth channels of `ids[start..end]`.
fn subscribe_chunk(ids: &Vec<String>, start: usize, end: usize) -> (r: String)
    requires
        start <= end <= ids@.len(),
    ensures
        r@ == subscribe_message(views(ids@).subrange(start as int, end as int)),
{
    let mut args: Vec<String> = Vec::new();
    let mut k = start;
    while k < end
        invariant
            start <= k <= end <= ids@.len(),
            views(args@) == views(ids@).subrange(start as int, k as int).map_values(
                |id: Seq<char>| depth_channel(id),
            ),
        decreases end - k,
    {
        let ghost before = views(args@);
        let mut channel = "spot/depth:".to_owned();
        channel.append(ids[k].as_str());
        assert(channel@ == depth_channel(views(ids@)[k as int]));
        args.push(channel);
        assert(views(args@) =~= before.push(channel@));
        assert(views(ids@).subrange(start as int, k + 1).map_values(|id: Seq<char>| depth_channel(id))
            =~= views(ids@).subrange(start as int, k as int).map_values(|id: Seq<char>| depth_channel(id)).push(
            depth_channel(views(ids@)[k as int]),
        ));
        k = k + 1;
    }
    let mut message = "{\"op\": \"subscribe\", \"args\": ".to_owned();
    message.append(format_list(&args).as_str());
    message.append("}");
    message
}

/// The subscription messages for the instrument ids `ids`.
fn subscription_messages_of(ids: &Vec<String>) -> (r: Vec<String>)
    ensures
        views(r@) == subscription_messages(views(ids@)),
{
    let mut out: Vec<String> = Vec::new();
    let mut start: usize = 0;
    let n = ids.len();
    assert(views(ids@).skip(0) =~= views(ids@));
    assert(views(out@) =~= Seq::<Seq<char>>::empty());
    assert(Seq::<Seq<char>>::empty() + subscription_messages(views(ids@)) =~= subscription_messages(views(ids@)));
    while start < n
        invariant
            n == ids@.len(),
            start <= n,
            views(out@) + subscription_messages(views(ids@).skip(start as int))
                == subscription_messages(views(ids@)),
        decreases n - start,
    {
        let end = if n - start <= WEBSOCKET_CHUNK_SIZE {
            n
        } else {
            start + WEBSOCKET_CHUNK_SIZE
        };
        let ghost rest = views(ids@).skip(start as int);
        let ghost before = views(out@);
        let m = subscribe_chunk(ids, start, end);
        out.push(m);
        proof {
            assert(views(out@) =~= before.push(m@));
            if n - start <= WEBSOCKET_CHUNK_SIZE {
                assert(views(ids@).subrange(start as int, end as int) =~= rest);
                assert(views(ids@).skip(end as int) =~= Seq::<Seq<char>>::empty());
            } else {
                assert(views(ids@).subrange(start as int, end as int) =~= rest.take(
                    WEBSOCKET_CHUNK_SIZE as int,
                ));
                assert(views(ids@).skip(end as int) =~= rest.skip(WEBSOCKET_CHUNK_SIZE as int));
            }
            assert(subscription_messages(Seq::<Seq<char>>::empty()) =~= Seq::<Seq<char>>::empty());
            assert(views(out@) + subscription_messages(views(ids@).skip(end as int)) =~= before
                + subscription_messages(rest));
        }
        start = end;
    }
    proof {
        assert(views(ids@).skip(start as int) =~= Seq::<Seq<char>>::empty());
        assert(views(out@) + Seq::<Seq<char>>::empty() =~= views(out@));
    }
    out
}

/// The subscription messages for the depth channels of `instruments`: one
/// per run of at most `WEBSOCKET_CHUNK_SIZE` instruments, in order.
pub fn to_subscription_message(instruments: &Vec<Instrument>) -> (r: Vec<String>)
    ensures
        views(r@) == subscription_messages(ids_of(instruments@)),
{
    let mut ids: Vec<String> = Vec::new();
    let mut k: usize = 0;
    while k < instruments.len()
        invariant
            k <= instruments@.len(),
            views(ids@) == ids_of(instruments@.take(k as int)),
        decreases instruments@.len() - k,
    {
        let ghost before = views(ids@);
        let id = instruments[k].instrument_id.clone();
        ids.push(id);
        assert(views(ids@) =~= before.push(id@));
        assert(ids_of(instruments@.take(k + 1)) =~= ids_of(instruments@.take(k as int)).push(
            instruments@[k as int].instrument_id@,
        ));
        k = k + 1;
    }
    assert(instruments@.take(k as int) =~= instruments@);
    subscription_messages_of(&ids)
}

/// The subscription messages for the instruments listed in the JSON text
/// `instruments`; `None` when it is not a list of objects with a string
/// `instrument_id`.
pub fn make_subscription_message(instruments: &str) -> (r: Option<Vec<String>>)
    ensures
        match instrument_ids_in(instruments@) {
            Some(ids) => r matches Some(v) && views(v@) == subscription_messages(ids),
            None => r is None,
        },
{
    match read_instrument_ids(instruments) {
        Some(ids) => Some(subscription_messages_of(&ids)),
        None => None,
    }
}

/// Relies on `cast::i8` from `usize`: the same number when it is at most
/// `i8::MAX`, an overflow error otherwise.
#[verifier::external_body]
fn checked_i8(n: usize) -> (r: Option<i8>)
    ensures
        r == if n <= 127 {
            Some(n as i8)
        } else {
            None::<i8>
        },
{
    cast::i8(n).ok()
}

/// The position of the first `.` in `b`.
pub open spec fn first_dot(b: Seq<u8>) -> Option<int>
    decreases b.len(),
{
    if b.len() == 0 {
        None
    } else if b[0] == 46 {
        Some(0)
    } else {
        match first_dot(b.drop_first()) {
            Some(i) => Some(i + 1),
            None => None,
        }
    }
}

/// How many digits follow the first `.` of a decimal written in `b`; zero
/// when there is no `.`.
pub open spec fn decimal_places(b: Seq<u8>) -> int {
    match first_dot(b) {
        Some(p) => b.len() - p - 1,
        None => 0,
    }
}

proof fn lemma_first_dot(b: Seq<u8>, k: int)
    requires
        0 <= k <= b.len(),
        forall|j: int| 0 <= j < k ==> b[j] != 46,
    ensures
        k < b.len() && b[k] == 46 ==> first_dot(b) == Some(k),
        k == b.len() ==> first_dot(b) is None,
    decreases k,
{
    if k > 0 {
        let t = b.drop_first();
        assert forall|j: int| 0 <= j < k - 1 implies t[j] != 46 by {
            assert(t[j] == b[j + 1]);
        }
        lemma_first_dot(t, k - 1);
        if k < b.len() {
            assert(t[k - 1] == b[k]);
        }
    }
}

/// The number of decimal places of a size increment such as `0.001`;
/// `None` when there are more than `i8::MAX` of them.
pub fn calculate_size_increment(size_increment: &str) -> (r: Option<i8>)
    ensures
        r == if decimal_places(size_increment.spec_bytes()) <= 127 {
            Some(decimal_places(size_increment.spec_bytes()) as i8)
        } else {
            None::<i8>
        },
{
    let bytes = size_increment.as_bytes();
    let n = bytes.len();
    let mut k: usize = 0;
    while k < n
        invariant
            n == bytes@.len(),
            bytes@ == size_increment.spec_bytes(),
            k <= n,
            forall|j: int| 0 <= j < k ==> bytes@[j] != 46,
        decreases n - k,
    {
        if bytes[k] == 46 {
            proof {
                lemma_first_dot(bytes@, k as int);
            }
            return checked_i8(n - k - 1);
        }
        k = k + 1;
    }
    proof {
        lemma_first_dot(bytes@, k as int);
    }
    checked_i8(0)
}

} // verus!
