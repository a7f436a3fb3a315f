use vstd::prelude::*;
use crate::packet::MAX_PACKET_LEN;

verus! {

/// Side of the smallest matrix code, in modules.
pub const MIN_CODE_SIZE: i32 = 21;

/// Side of the largest matrix code, in modules.
pub const MAX_CODE_SIZE: i32 = 177;

/// `qrcodegen::QrCode`, a finished matrix code. Nothing is claimed of what
/// a value holds but through `code_modules`.
#[verifier::external_type_specification]
#[verifier::external_body]
pub struct ExQrCode(qrcodegen::QrCode);

/// `qrcodegen::DataTooLong`, the error of the encoder. Nothing is claimed
/// of what a value holds.
#[verifier::external_type_specification]
#[verifier::external_body]
pub struct ExDataTooLong(qrcodegen::DataTooLong);

/// The modules of a matrix code, row by row from the top, each row from the
/// left; `true` is a dark module.
pub uninterp spec fn code_modules(code: qrcodegen::QrCode) -> Seq<Seq<bool>>;

/// The modules of the matrix code that carries `data` in binary mode at the
/// lowest error-correction strength.
pub uninterp spec fn binary_code(data: Seq<u8>) -> Seq<Seq<bool>>;

/// The side of the matrix code that carries data of `len` bytes in binary
/// mode at the lowest error-correction strength: the smallest code that
/// holds the data is taken, whatever the bytes are.
pub uninterp spec fn binary_code_side(len: int) -> int;

/// Every row is as long as the grid is high.
pub open spec fn is_square(m: Seq<Seq<bool>>) -> bool {
    forall|i: int| 0 <= i < m.len() ==> (#[trigger] m[i]).len() == m.len()
}

/// The module in column `x` of row `y`; outside the grid every module is
/// light.
pub open spec fn module_at(m: Seq<Seq<bool>>, x: int, y: int) -> bool {
    0 <= x < m.len() && 0 <= y < m.len() && m[y][x]
}

/// The rows that a vector of module rows holds.
pub open spec fn grid(v: Seq<Vec<bool>>) -> Seq<Seq<bool>> {
    Seq::new(v.len(), |i: int| v[i]@)
}

/// Calls `qrcodegen::QrCode::encode_binary` with `QrCodeEcc::Low`. Not proved:
/// that data of at most 2953 bytes fits a code, that the code is a function
/// of the data, and that its side is a function of the length of the data.
#[verifier::external_body]
fn encode_low(data: &[u8]) -> (out: Result<qrcodegen::QrCode, qrcodegen::DataTooLong>)
    requires
        data@.len() <= MAX_PACKET_LEN,
    ensures
        out is Ok,
        out matches Ok(code) ==> code_modules(code) == binary_code(data@),
        out matches Ok(code) ==> code_modules(code).len() == binary_code_side(data@.len() as int),
{
    qrcodegen::QrCode::encode_binary(data, qrcodegen::QrCodeEcc::Low)
}

/// Calls `qrcodegen::QrCode::size`. Not proved: that the side lies between 21
/// and 177 modules and that the code is a square of that side.
#[verifier::external_body]
fn code_size(code: &qrcodegen::QrCode) -> (size: i32)
    ensures
        MIN_CODE_SIZE <= size <= MAX_CODE_SIZE,
        code_modules(*code).len() == size,
        forall|i: int| 0 <= i < size ==> (#[trigger] code_modules(*code)[i]).len() == size,
{
    code.size()
}

/// Calls `qrcodegen::QrCode::get_module`. Not proved: that it returns the
/// module at column `x` of row `y`, and `false` outside the code.
#[verifier::external_body]
fn code_module(code: &qrcodegen::QrCode, x: i32, y: i32) -> (dark: bool)
    ensures
        dark == module_at(code_modules(*code), x as int, y as int),
{
    code.get_module(x, y)
}

/// A square grid of two-tone modules.
#[derive(Debug)]
pub struct ModuleMatrix {
    rows: Vec<Vec<bool>>,
}

impl View for ModuleMatrix {
    type V = Seq<Seq<bool>>;

    /// The rows of the grid, from the top.
    closed spec fn view(&self) -> Seq<Seq<bool>> {
        grid(self.rows@)
    }
}

/// Why a packet did not become a matrix code.
#[derive(Debug, Clone, Copy, PartialEq, Eq)]
pub enum RenderError {
    /// The packet is longer than the largest matrix code can carry.
    DataTooLong,
}

impl ModuleMatrix {
    /// The grid is as wide as it is high.
    #[verifier::type_invariant]
    spec fn square(self) -> bool {
        is_square(grid(self.rows@))
    }

    /// Takes the rows of a grid, if they make a square.
    pub fn from_rows(rows: Vec<Vec<bool>>) -> (out: Option<ModuleMatrix>)
        ensures
            out is Some <==> is_square(grid(rows@)),
            out matches Some(m) ==> m@ == grid(rows@),
    {
        let n = rows.len();
        let mut i: usize = 0;
        while i < n
            invariant
                n == rows@.len(),
                i <= n,
                forall|j: int| 0 <= j < i ==> (#[trigger] rows@[j])@.len() == n,
            decreases n - i,
        {
            if rows[i].len() != n {
                assert(grid(rows@)[i as int].len() != grid(rows@).len());
                return None;
            }
            i += 1;
        }
        assert(is_square(grid(rows@))) by {
            assert forall|j: int| 0 <= j < grid(rows@).len() implies (#[trigger] grid(
                rows@,
            )[j]).len() == grid(rows@).len() by {
                assert(grid(rows@)[j] == rows@[j]@);
            }
        }
        Some(ModuleMatrix { rows })
    }

    /// The side of the grid, in modules.
    pub fn size(&self) -> (n: usize)
        ensures
            n == self@.len(),
            is_square(self@),
    {
        proof {
            use_type_invariant(self);
        }
        self.rows.len()
    }

    /// The module in column `x` of row `y`; `false` outside the grid.
    pub fn get_module(&self, x: i32, y: i32) -> (dark: bool)
        ensures
            dark == module_at(self@, x as int, y as int),
    {
        proof {
            use_type_invariant(self);
        }
        let n = self.rows.len();
        if x < 0 || y < 0 || x as usize >= n || y as usize >= n {
            return false;
        }
        assert(grid(self.rows@)[y as int] == self.rows@[y as int]@);
        self.rows[y as usize][x as usize]
    }
}

/// Copies the modules of a matrix code into a grid of the library.
fn matrix_of_code(code: &qrcodegen::QrCode) -> (m: ModuleMatrix)
    ensures
        m@ == code_modules(*code),
        MIN_CODE_SIZE <= m@.len() <= MAX_CODE_SIZE,
        is_square(m@),
{
    let size = code_size(code);
    let ghost want = code_modules(*code);
    let mut rows: Vec<Vec<bool>> = Vec::new();
    let mut y: i32 = 0;
    while y < size
        invariant
            0 <= y <= size <= MAX_CODE_SIZE,
            want == code_modules(*code),
            want.len() == size,
            is_square(want),
            rows@.len() == y,
            forall|j: int| 0 <= j < y ==> (#[trigger] rows@[j])@ == want[j],
        decreases size - y,
    {
        let mut row: Vec<bool> = Vec::new();
        let mut x: i32 = 0;
        while x < size
            invariant
                0 <= x <= size <= MAX_CODE_SIZE,
                0 <= y < size,
                want == code_modules(*code),
                want.len() == size,
                is_square(want),
                row@.len() == x,
                forall|k: int| 0 <= k < x ==> (#[trigger] row@[k]) == want[y as int][k],
            decreases size - x,
        {
            row.push(code_module(code, x, y));
            x += 1;
        }
        assert(row@ =~= want[y as int]);
        rows.push(row);
        y += 1;
    }
    assert(grid(rows@) =~= want);
    ModuleMatrix { rows }
}

/// Turns one packet into its matrix code, at the lowest error-correction
/// strength.
pub fn render_packet(packet: &[u8]) -> (out: Result<ModuleMatrix, RenderError>)
    ensures
        out is Ok <==> packet@.len() <= MAX_PACKET_LEN,
        out matches Ok(m) ==> {
            &&& m@ == binary_code(packet@)
            &&& m@.len() == binary_code_side(packet@.len() as int)
            &&& MIN_CODE_SIZE <= m@.len() <= MAX_CODE_SIZE
            &&& is_square(m@)
        },
{
    if packet.len() > MAX_PACKET_LEN {
        return Err(RenderError::DataTooLong);
    }
    match encode_low(packet) {
        Ok(code) => Ok(matrix_of_code(&code)),
        Err(_) => Err(RenderError::DataTooLong),
    }
}

/// Turns every packet into its matrix code, in the order of the packets.
pub fn make_qr_codes(data: Vec<Vec<u8>>) -> (out: Vec<ModuleMatrix>)
    requires
        forall|i: int| 0 <= i < data@.len() ==> (#[trigger] data@[i])@.len() <= MAX_PACKET_LEN,
    ensures
        out@.len() == data@.len(),
        forall|i: int|
            0 <= i < out@.len() ==> {
                &&& (#[trigger] out@[i])@ == binary_code(data@[i]@)
                &&& out@[i]@.len() == binary_code_side(data@[i]@.len() as int)
                &&& MIN_CODE_SIZE <= out@[i]@.len() <= MAX_CODE_SIZE
                &&& is_square(out@[i]@)
            },
{
    let mut out: Vec<ModuleMatrix> = Vec::new();
    let mut i: usize = 0;
    while i < data.len()
        invariant
            i <= data@.len(),
            out@.len() == i,
            forall|j: int| 0 <= j < data@.len() ==> (#[trigger] data@[j])@.len() <= MAX_PACKET_LEN,
            forall|j: int|
                0 <= j < i ==> {
                    &&& (#[trigger] out@[j])@ == binary_code(data@[j]@)
                    &&& out@[j]@.len() == binary_code_side(data@[j]@.len() as int)
                    &&& MIN_CODE_SIZE <= out@[j]@.len() <= MAX_CODE_SIZE
                    &&& is_square(out@[j]@)
                },
        decreases data@.len() - i,
    {
        match render_packet(data[i].as_slice()) {
            Ok(m) => out.push(m),
            Err(_) => {
                assert(false);
            },
        }
        i += 1;
    }
    out
}

} // verus!
