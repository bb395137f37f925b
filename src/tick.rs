use vstd::prelude::*;

verus! {

/// Length of the NUL-padded symbol text buffer.
pub const SYMBOL_TEXT_LEN: usize = 32;

/// What `String::from_utf8_lossy` makes of a byte sequence.
pub uninterp spec fn utf8_lossy(b: Seq<u8>) -> Seq<char>;

/// The bytes with every trailing NUL byte removed.
pub open spec fn trim_trailing_nul(s: Seq<u8>) -> Seq<u8>
    decreases s.len(),
{
    if s.len() > 0 && s.last() == 0 {
        trim_trailing_nul(s.drop_last())
    } else {
        s
    }
}

/// Relies on `String::from_utf8_lossy`: the text depends on the bytes alone.
#[verifier::external_body]
fn decode_lossy(b: &[u8]) -> (r: String)
    ensures
        r@ == utf8_lossy(b@),
{
    String::from_utf8_lossy(b).into_owned()
}

/// One market-data snapshot. Prices are held as the IEEE-754 binary64 bit
/// patterns that make up the shared wire format.
#[derive(Clone, Copy, Debug)]
pub struct TickRecord {
    pub symbol: [u8; 32],
    pub symbol_id: u64,
    pub trading_day: u32,
    pub _pad1: u32,
    pub update_time: u64,
    pub last_price: u64,
    pub volume: i32,
    pub _pad2: u32,
    pub turnover: u64,
    pub open_interest: u64,
    pub upper_limit: u64,
    pub lower_limit: u64,
    pub open_price: u64,
    pub highest_price: u64,
    pub lowest_price: u64,
    pub pre_close_price: u64,
    pub bid_price: [u64; 5],
    pub bid_volume: [i32; 5],
    pub _pad3: u32,
    pub ask_price: [u64; 5],
    pub ask_volume: [i32; 5],
    pub _pad4: [u8; 60],
}

impl TickRecord {
    /// Every field is zero.
    pub open spec fn is_zeroed(&self) -> bool {
        &&& self.symbol@ == Seq::new(32, |i: int| 0u8)
        &&& self.symbol_id == 0 && self.trading_day == 0 && self._pad1 == 0
        &&& self.update_time == 0 && self.last_price == 0 && self.volume == 0
        &&& self._pad2 == 0 && self.turnover == 0 && self.open_interest == 0
        &&& self.upper_limit == 0 && self.lower_limit == 0 && self.open_price == 0
        &&& self.highest_price == 0 && self.lowest_price == 0 && self.pre_close_price == 0
        &&& self.bid_price@ == Seq::new(5, |i: int| 0u64)
        &&& self.bid_volume@ == Seq::new(5, |i: int| 0i32)
        &&& self._pad3 == 0
        &&& self.ask_price@ == Seq::new(5, |i: int| 0u64)
        &&& self.ask_volume@ == Seq::new(5, |i: int| 0i32)
        &&& self._pad4@ == Seq::new(60, |i: int| 0u8)
    }

    /// A record with every field zero, as a freshly created segment holds.
    pub fn zeroed() -> (r: TickRecord)
        ensures
            r.is_zeroed(),
    {
        let r = TickRecord {
            symbol: [0u8; 32],
            symbol_id: 0,
            trading_day: 0,
            _pad1: 0,
            update_time: 0,
            last_price: 0,
            volume: 0,
            _pad2: 0,
            turnover: 0,
            open_interest: 0,
            upper_limit: 0,
            lower_limit: 0,
            open_price: 0,
            highest_price: 0,
            lowest_price: 0,
            pre_close_price: 0,
            bid_price: [0u64; 5],
            bid_volume: [0i32; 5],
            _pad3: 0,
            ask_price: [0u64; 5],
            ask_volume: [0i32; 5],
            _pad4: [0u8; 60],
        };
        assert(r.symbol@ =~= Seq::new(32, |i: int| 0u8));
        assert(r.bid_price@ =~= Seq::new(5, |i: int| 0u64));
        assert(r.bid_volume@ =~= Seq::new(5, |i: int| 0i32));
        assert(r.ask_price@ =~= Seq::new(5, |i: int| 0u64));
        assert(r.ask_volume@ =~= Seq::new(5, |i: int| 0i32));
        assert(r._pad4@ =~= Seq::new(60, |i: int| 0u8));
        r
    }

    /// The symbol text as it is decoded: trailing NULs gone, lossily read as UTF-8.
    pub open spec fn symbol_text(&self) -> Seq<char> {
        utf8_lossy(trim_trailing_nul(self.symbol@))
    }

    /// The symbol buffer without its trailing NUL padding.
    pub fn symbol_bytes(&self) -> (r: Vec<u8>)
        ensures
            r@ == trim_trailing_nul(self.symbol@),
    {
        let mut end: usize = SYMBOL_TEXT_LEN;
        assert(self.symbol@.subrange(0, SYMBOL_TEXT_LEN as int) =~= self.symbol@);
        while end > 0 && self.symbol[end - 1] == 0
            invariant
                end <= SYMBOL_TEXT_LEN,
                self.symbol@.len() == SYMBOL_TEXT_LEN,
                trim_trailing_nul(self.symbol@.subrange(0, end as int)) == trim_trailing_nul(
                    self.symbol@,
                ),
            decreases end,
        {
            assert(self.symbol@.subrange(0, end as int).drop_last() =~= self.symbol@.subrange(
                0,
                end - 1,
            ));
            end = end - 1;
        }
        let mut out: Vec<u8> = Vec::new();
        let mut i: usize = 0;
        while i < end
            invariant
                i <= end <= SYMBOL_TEXT_LEN,
                self.symbol@.len() == SYMBOL_TEXT_LEN,
                out@ =~= self.symbol@.subrange(0, i as int),
            decreases end - i,
        {
            out.push(self.symbol[i]);
            i = i + 1;
        }
        assert(trim_trailing_nul(out@) == out@);
        out
    }

    /// The symbol text: the buffer decoded as UTF-8 with invalid sequences
    /// replaced, then stripped of its trailing NUL padding.
    pub fn get_symbol(&self) -> (r: String)
        ensures
            r@ == self.symbol_text(),
    {
        let bytes = self.symbol_bytes();
        decode_lossy(bytes.as_slice())
    }
}

} // verus!
