//! The request and response messages that client and server exchange,
//! together with their mathematical models.
use vstd::prelude::*;

verus! {

/// What a `Value` holds, as a mathematical value.
pub enum Scalar {
    Text(Seq<char>),
    Bytes(Seq<u8>),
    Int(i64),
    Flag(bool),
}

/// The payload of a `Value`. The store holds no floating-point values: a
/// floating-point value arriving in a request is refused before it reaches
/// the library.
#[derive(Debug, PartialEq, PartialOrd)]
pub enum ValueData {
    String(String),
    Binary(Vec<u8>),
    Integer(i64),
    Bool(bool),
}

impl View for ValueData {
    type V = Scalar;

    open spec fn view(&self) -> Scalar {
        match self {
            ValueData::String(s) => Scalar::Text(s@),
            ValueData::Binary(b) => Scalar::Bytes(b@),
            ValueData::Integer(i) => Scalar::Int(*i),
            ValueData::Bool(b) => Scalar::Flag(*b),
        }
    }
}

impl Clone for ValueData {
    fn clone(&self) -> (r: Self)
        ensures
            r@ == self@,
    {
        match self {
            ValueData::String(s) => ValueData::String(s.clone()),
            ValueData::Binary(b) => {
                let c = b.clone();
                assert(c@ =~= b@);
                ValueData::Binary(c)
            },
            ValueData::Integer(i) => ValueData::Integer(*i),
            ValueData::Bool(b) => ValueData::Bool(*b),
        }
    }
}

/// A value stored in a table; `value` is `None` for the empty value.
#[derive(Debug, PartialEq, PartialOrd)]
pub struct Value {
    pub value: Option<ValueData>,
}

impl View for Value {
    type V = Option<Scalar>;

    open spec fn view(&self) -> Option<Scalar> {
        match self.value {
            Some(d) => Some(d@),
            None => None,
        }
    }
}

impl Clone for Value {
    fn clone(&self) -> (r: Self)
        ensures
            r@ == self@,
    {
        match &self.value {
            Some(d) => Value { value: Some(d.clone()) },
            None => Value { value: None },
        }
    }
}

impl Default for Value {
    fn default() -> (r: Self)
        ensures
            r@ == None::<Scalar>,
    {
        Value { value: None }
    }
}

impl Value {
    /// A value holding the given text.
    pub fn text(s: &str) -> (r: Self)
        ensures
            r@ == Some(Scalar::Text(s@)),
    {
        Value { value: Some(ValueData::String(String::from_str(s))) }
    }

    /// A value holding the given integer.
    pub fn integer(i: i64) -> (r: Self)
        ensures
            r@ == Some(Scalar::Int(i)),
    {
        Value { value: Some(ValueData::Integer(i)) }
    }
}

impl From<i64> for Value {
    fn from(i: i64) -> (r: Self) {
        Value { value: Some(ValueData::Integer(i)) }
    }
}

impl vstd::std_specs::convert::FromSpecImpl<i64> for Value {
    open spec fn obeys_from_spec() -> bool {
        true
    }

    open spec fn from_spec(v: i64) -> Value {
        Value { value: Some(ValueData::Integer(v)) }
    }
}

impl From<String> for Value {
    fn from(s: String) -> (r: Self) {
        Value { value: Some(ValueData::String(s)) }
    }
}

impl vstd::std_specs::convert::FromSpecImpl<String> for Value {
    open spec fn obeys_from_spec() -> bool {
        true
    }

    open spec fn from_spec(v: String) -> Value {
        Value { value: Some(ValueData::String(v)) }
    }
}

impl From<bool> for Value {
    fn from(b: bool) -> (r: Self) {
        Value { value: Some(ValueData::Bool(b)) }
    }
}

impl vstd::std_specs::convert::FromSpecImpl<bool> for Value {
    open spec fn obeys_from_spec() -> bool {
        true
    }

    open spec fn from_spec(v: bool) -> Value {
        Value { value: Some(ValueData::Bool(v)) }
    }
}

impl From<Vec<u8>> for Value {
    fn from(b: Vec<u8>) -> (r: Self) {
        Value { value: Some(ValueData::Binary(b)) }
    }
}

impl vstd::std_specs::convert::FromSpecImpl<Vec<u8>> for Value {
    open spec fn obeys_from_spec() -> bool {
        true
    }

    open spec fn from_spec(v: Vec<u8>) -> Value {
        Value { value: Some(ValueData::Binary(v)) }
    }
}

/// The model of a key-value pair: its key and its (possibly absent) value.
pub struct PairView {
    pub key: Seq<char>,
    pub value: Option<Option<Scalar>>,
}

/// A key together with its value.
#[derive(Debug, PartialEq, PartialOrd)]
pub struct Kvpair {
    pub key: String,
    pub value: Option<Value>,
}

impl View for Kvpair {
    type V = PairView;

    open spec fn view(&self) -> PairView {
        PairView {
            key: self.key@,
            value: match self.value {
                Some(v) => Some(v@),
                None => None,
            },
        }
    }
}

impl Clone for Kvpair {
    fn clone(&self) -> (r: Self)
        ensures
            r@ == self@,
    {
        let value = match &self.value {
            Some(v) => Some(v.clone()),
            None => None,
        };
        Kvpair { key: self.key.clone(), value }
    }
}

impl Default for Kvpair {
    fn default() -> (r: Self)
        ensures
            r@ == (PairView { key: Seq::empty(), value: None }),
    {
        Kvpair { key: String::new(), value: None }
    }
}

/// The model of a pair built by `Kvpair::new`.
pub open spec fn pair_of(key: Seq<char>, value: Option<Scalar>) -> PairView {
    PairView { key, value: Some(value) }
}

impl Kvpair {
    /// A pair of the given key and value.
    pub fn new(key: &str, value: Value) -> (r: Self)
        ensures
            r@ == pair_of(key@, value@),
    {
        Kvpair { key: String::from_str(key), value: Some(value) }
    }

    /// A pair of the given (owned) key and value.
    pub fn from_parts(key: String, value: Value) -> (r: Self)
        ensures
            r@ == pair_of(key@, value@),
    {
        Kvpair { key, value: Some(value) }
    }
}

/// Read one key of a table.
#[derive(Debug, PartialEq)]
pub struct Hget {
    pub table: String,
    pub key: String,
}

/// Read every pair of a table.
#[derive(Debug, PartialEq)]
pub struct Hgetall {
    pub table: String,
}

/// Read several keys of a table.
#[derive(Debug, PartialEq)]
pub struct Hmget {
    pub table: String,
    pub keys: Vec<String>,
}

/// Write one pair into a table.
#[derive(Debug, PartialEq)]
pub struct Hset {
    pub table: String,
    pub pair: Option<Kvpair>,
}

/// Write several pairs into a table.
#[derive(Debug, PartialEq)]
pub struct Hmset {
    pub table: String,
    pub pairs: Vec<Kvpair>,
}

/// The command that a request carries.
#[derive(Debug, PartialEq)]
pub enum RequestData {
    Hget(Hget),
    Hgetall(Hgetall),
    Hmget(Hmget),
    Hset(Hset),
    Hmset(Hmset),
    Subscribe(Subscribe),
    Unsubscribe(Unsubscribe),
    Publish(Publish),
}

/// Subscribe to a topic.
#[derive(Debug, PartialEq)]
pub struct Subscribe {
    pub topic: String,
}

/// End the subscription `id` to a topic.
#[derive(Debug, PartialEq)]
pub struct Unsubscribe {
    pub topic: String,
    pub id: u32,
}

/// Publish values to the subscribers of a topic.
#[derive(Debug, PartialEq)]
pub struct Publish {
    pub topic: String,
    pub data: Vec<Value>,
}

/// A request from a client; `request_data` is `None` when it carries no command.
#[derive(Debug, PartialEq)]
pub struct CommandRequest {
    pub request_data: Option<RequestData>,
}

impl Clone for Hset {
    fn clone(&self) -> (r: Self)
        ensures
            r.table@ == self.table@,
            r.pair matches Some(p) ==> self.pair is Some && p@ == self.pair->0@,
            r.pair is None ==> self.pair is None,
    {
        let pair = match &self.pair {
            Some(p) => Some(p.clone()),
            None => None,
        };
        Hset { table: self.table.clone(), pair }
    }
}

impl Clone for Hmset {
    fn clone(&self) -> (r: Self)
        ensures
            r.table@ == self.table@,
            r.pairs@.map_values(|p: Kvpair| p@) == self.pairs@.map_values(|p: Kvpair| p@),
    {
        let mut pairs: Vec<Kvpair> = Vec::new();
        let mut i: usize = 0;
        while i < self.pairs.len()
            invariant
                i <= self.pairs.len(),
                pairs.len() == i,
                forall|j: int| 0 <= j < i ==> #[trigger] pairs@[j]@ == self.pairs@[j]@,
            decreases self.pairs.len() - i,
        {
            pairs.push(self.pairs[i].clone());
            i = i + 1;
        }
        assert(pairs@.map_values(|p: Kvpair| p@) =~= self.pairs@.map_values(|p: Kvpair| p@));
        Hmset { table: self.table.clone(), pairs }
    }
}

impl Clone for Hget {
    fn clone(&self) -> (r: Self)
        ensures
            r.table@ == self.table@,
            r.key@ == self.key@,
    {
        Hget { table: self.table.clone(), key: self.key.clone() }
    }
}

impl Clone for Hgetall {
    fn clone(&self) -> (r: Self)
        ensures
            r.table@ == self.table@,
    {
        Hgetall { table: self.table.clone() }
    }
}

impl Clone for Hmget {
    fn clone(&self) -> (r: Self)
        ensures
            r.table@ == self.table@,
            r.keys@.map_values(|k: String| k@) == self.keys@.map_values(|k: String| k@),
    {
        let mut keys: Vec<String> = Vec::new();
        let mut i: usize = 0;
        while i < self.keys.len()
            invariant
                i <= self.keys.len(),
                keys.len() == i,
                forall|j: int| 0 <= j < i ==> #[trigger] keys@[j]@ == self.keys@[j]@,
            decreases self.keys.len() - i,
        {
            keys.push(self.keys[i].clone());
            i = i + 1;
        }
        assert(keys@.map_values(|k: String| k@) =~= self.keys@.map_values(|k: String| k@));
        Hmget { table: self.table.clone(), keys }
    }
}

/// The model of a request.
pub enum RequestView {
    Get { table: Seq<char>, key: Seq<char> },
    GetAll { table: Seq<char> },
    MultiGet { table: Seq<char>, keys: Seq<Seq<char>> },
    Put { table: Seq<char>, pair: Option<PairView> },
    MultiPut { table: Seq<char>, pairs: Seq<PairView> },
    Listen { topic: Seq<char> },
    StopListening { topic: Seq<char>, id: u32 },
    Announce { topic: Seq<char>, values: Seq<Option<Scalar>> },
    Empty,
}

/// The model of the command a request carries.
pub open spec fn data_view(d: RequestData) -> RequestView {
    match d {
        RequestData::Hget(h) => RequestView::Get { table: h.table@, key: h.key@ },
        RequestData::Hgetall(h) => RequestView::GetAll { table: h.table@ },
        RequestData::Hmget(h) => RequestView::MultiGet { table: h.table@, keys: texts(h.keys@) },
        RequestData::Hset(h) => RequestView::Put {
            table: h.table@,
            pair: match h.pair {
                Some(p) => Some(p@),
                None => None,
            },
        },
        RequestData::Hmset(h) => RequestView::MultiPut { table: h.table@, pairs: pair_views(h.pairs@) },
        RequestData::Subscribe(h) => RequestView::Listen { topic: h.topic@ },
        RequestData::Unsubscribe(h) => RequestView::StopListening { topic: h.topic@, id: h.id },
        RequestData::Publish(h) => RequestView::Announce { topic: h.topic@, values: value_views(h.data@) },
    }
}

impl View for CommandRequest {
    type V = RequestView;

    open spec fn view(&self) -> RequestView {
        match self.request_data {
            Some(d) => data_view(d),
            None => RequestView::Empty,
        }
    }
}

impl Clone for RequestData {
    fn clone(&self) -> (r: Self)
        ensures
            data_view(r) == data_view(*self),
    {
        match self {
            RequestData::Hget(c) => RequestData::Hget(c.clone()),
            RequestData::Hgetall(c) => RequestData::Hgetall(c.clone()),
            RequestData::Hmget(c) => RequestData::Hmget(c.clone()),
            RequestData::Hset(c) => RequestData::Hset(c.clone()),
            RequestData::Hmset(c) => RequestData::Hmset(c.clone()),
            RequestData::Subscribe(c) => RequestData::Subscribe(Subscribe { topic: c.topic.clone() }),
            RequestData::Unsubscribe(c) => RequestData::Unsubscribe(
                Unsubscribe { topic: c.topic.clone(), id: c.id },
            ),
            RequestData::Publish(c) => {
                let data = clone_values(&c.data);
                RequestData::Publish(Publish { topic: c.topic.clone(), data })
            },
        }
    }
}

fn clone_values(v: &Vec<Value>) -> (r: Vec<Value>)
    ensures
        value_views(r@) == value_views(v@),
{
    let mut out: Vec<Value> = Vec::new();
    let mut i: usize = 0;
    while i < v.len()
        invariant
            i <= v@.len(),
            out@.len() == i,
            forall|j: int| 0 <= j < i ==> #[trigger] out@[j]@ == v@[j]@,
        decreases v@.len() - i,
    {
        out.push(v[i].clone());
        i = i + 1;
    }
    assert(value_views(out@) =~= value_views(v@));
    out
}

impl Clone for CommandRequest {
    fn clone(&self) -> (r: Self)
        ensures
            r@ == self@,
    {
        match &self.request_data {
            Some(d) => CommandRequest { request_data: Some(d.clone()) },
            None => CommandRequest { request_data: None },
        }
    }
}

/// The model of a `Vec<String>`: the sequence of the strings' views.
pub open spec fn texts(v: Seq<String>) -> Seq<Seq<char>> {
    v.map_values(|k: String| k@)
}

/// The model of a `Vec<Kvpair>`: the sequence of the pairs' views.
pub open spec fn pair_views(v: Seq<Kvpair>) -> Seq<PairView> {
    v.map_values(|p: Kvpair| p@)
}

/// The model of a `Vec<Value>`: the sequence of the values' views.
pub open spec fn value_views(v: Seq<Value>) -> Seq<Option<Scalar>> {
    v.map_values(|x: Value| x@)
}

impl CommandRequest {
    /// A request to write `value` under `key` in `table`.
    pub fn new_hset(table: &str, key: &str, value: Value) -> (r: Self)
        ensures
            ({
                &&& r.request_data matches Some(RequestData::Hset(h))
                &&& h.table@ == table@
                &&& h.pair matches Some(p)
                &&& p@ == pair_of(key@, value@)
            }),
    {
        CommandRequest {
            request_data: Some(
                RequestData::Hset(
                    Hset { table: String::from_str(table), pair: Some(Kvpair::new(key, value)) },
                ),
            ),
        }
    }

    /// A request to read `key` of `table`.
    pub fn new_hget(table: &str, key: &str) -> (r: Self)
        ensures
            ({
                &&& r.request_data matches Some(RequestData::Hget(h))
                &&& h.table@ == table@
                &&& h.key@ == key@
            }),
    {
        CommandRequest {
            request_data: Some(
                RequestData::Hget(
                    Hget { table: String::from_str(table), key: String::from_str(key) },
                ),
            ),
        }
    }

    /// A request to read all pairs of `table`.
    pub fn new_hgetall(table: &str) -> (r: Self)
        ensures
            ({
                &&& r.request_data matches Some(RequestData::Hgetall(h))
                &&& h.table@ == table@
            }),
    {
        CommandRequest {
            request_data: Some(RequestData::Hgetall(Hgetall { table: String::from_str(table) })),
        }
    }

    /// A request to read `keys` of `table`, in order.
    pub fn new_hmget(table: &str, keys: Vec<String>) -> (r: Self)
        ensures
            ({
                &&& r.request_data matches Some(RequestData::Hmget(h))
                &&& h.table@ == table@
                &&& h.keys == keys
            }),
    {
        CommandRequest {
            request_data: Some(
                RequestData::Hmget(Hmget { table: String::from_str(table), keys }),
            ),
        }
    }

    /// A request to write `pairs` into `table`, in order.
    pub fn new_hmset(table: &str, pairs: Vec<Kvpair>) -> (r: Self)
        ensures
            ({
                &&& r.request_data matches Some(RequestData::Hmset(h))
                &&& h.table@ == table@
                &&& h.pairs == pairs
            }),
    {
        CommandRequest {
            request_data: Some(
                RequestData::Hmset(Hmset { table: String::from_str(table), pairs }),
            ),
        }
    }

    /// A request to subscribe to `topic`.
    pub fn new_subscribe(topic: &str) -> (r: Self)
        ensures
            r@ == (RequestView::Listen { topic: topic@ }),
    {
        CommandRequest {
            request_data: Some(RequestData::Subscribe(Subscribe { topic: String::from_str(topic) })),
        }
    }

    /// A request to end subscription `id` to `topic`.
    pub fn new_unsubscribe(topic: &str, id: u32) -> (r: Self)
        ensures
            r@ == (RequestView::StopListening { topic: topic@, id }),
    {
        CommandRequest {
            request_data: Some(
                RequestData::Unsubscribe(Unsubscribe { topic: String::from_str(topic), id }),
            ),
        }
    }

    /// A request to publish `values` to `topic`.
    pub fn new_publish(topic: &str, values: Vec<Value>) -> (r: Self)
        ensures
            r@ == (RequestView::Announce { topic: topic@, values: value_views(values@) }),
    {
        CommandRequest {
            request_data: Some(
                RequestData::Publish(Publish { topic: String::from_str(topic), data: values }),
            ),
        }
    }
}

/// The model of a response.
pub struct ResponseView {
    pub status: u32,
    pub message: Seq<char>,
    pub values: Seq<Option<Scalar>>,
    pub pairs: Seq<PairView>,
}

/// The answer to a request: a status code (as in HTTP), a message for errors,
/// and the values or pairs that the command produced.
#[derive(Debug, PartialEq)]
pub struct CommandResponse {
    pub status: u32,
    pub message: String,
    pub values: Vec<Value>,
    pub pairs: Vec<Kvpair>,
}

impl View for CommandResponse {
    type V = ResponseView;

    open spec fn view(&self) -> ResponseView {
        ResponseView {
            status: self.status,
            message: self.message@,
            values: value_views(self.values@),
            pairs: pair_views(self.pairs@),
        }
    }
}

/// The status of a successful command.
pub const STATUS_OK: u32 = 200;

/// The status of a malformed command.
pub const STATUS_BAD_REQUEST: u32 = 400;

/// The status of a lookup that found nothing.
pub const STATUS_NOT_FOUND: u32 = 404;

/// The status of any other failure.
pub const STATUS_INTERNAL_ERROR: u32 = 500;

/// The model of a successful response that carries `values`.
pub open spec fn values_response(values: Seq<Option<Scalar>>) -> ResponseView {
    ResponseView { status: STATUS_OK, message: Seq::empty(), values, pairs: Seq::empty() }
}

/// The model of a successful response that carries `pairs`.
pub open spec fn pairs_response(pairs: Seq<PairView>) -> ResponseView {
    ResponseView { status: STATUS_OK, message: Seq::empty(), values: Seq::empty(), pairs }
}

impl CommandResponse {
    /// A successful response carrying the single value `v`.
    pub fn from_value(v: Value) -> (r: Self)
        ensures
            r@ == values_response(seq![v@]),
    {
        let mut values: Vec<Value> = Vec::new();
        values.push(v);
        let r = CommandResponse { status: STATUS_OK, message: String::new(), values, pairs: Vec::new() };
        assert(r@.values =~= seq![v@]);
        assert(r@.pairs =~= Seq::<PairView>::empty());
        r
    }

    /// A successful response carrying `values`.
    pub fn from_values(values: Vec<Value>) -> (r: Self)
        ensures
            r@ == values_response(value_views(values@)),
    {
        let r = CommandResponse { status: STATUS_OK, message: String::new(), values, pairs: Vec::new() };
        assert(r@.pairs =~= Seq::<PairView>::empty());
        r
    }

    /// A successful response carrying `pairs`.
    pub fn from_pairs(pairs: Vec<Kvpair>) -> (r: Self)
        ensures
            r@ == pairs_response(pair_views(pairs@)),
    {
        let r = CommandResponse { status: STATUS_OK, message: String::new(), values: Vec::new(), pairs };
        assert(r@.values =~= Seq::<Option<Scalar>>::empty());
        r
    }
}

} // verus!
