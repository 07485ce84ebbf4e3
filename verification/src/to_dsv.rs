use vstd::prelude::*;

use crate::raw_encoder::Encoder;
use crate::raw_encoder_error::Error as RawEncoderError;

verus! {

/// Why writing a value failed: the encoder's own error, or one from the value's side.
#[derive(Debug)]
pub enum ToDsvError<E> {
    /// The encoder failed.
    RawEnc(RawEncoderError),
    /// The value's own writing failed.
    Backend(E),
}

/// The result of writing a value.
pub type ToDsvResult<T, E> = std::result::Result<T, ToDsvError<E>>;

/// A value that writes itself through an encoder, steered by an option.
pub trait ToOptionedDsv {
    /// What steers the writing.
    type Opt;

    /// The value's own error.
    type Error;

    /// Whether writing the value as `option` steers may take the encoder from `before`
    /// to `after` and give `result`: what the value promises of `to_opt_dsv`. A value
    /// that promises nothing keeps this default.
    open spec fn opt_dsv_written<T: Encoder>(
        &self,
        option: Self::Opt,
        before: T,
        after: T,
        result: ToDsvResult<(), Self::Error>,
    ) -> bool {
        true
    }

    /// Writes the value through `writer` as `option` steers.
    fn to_opt_dsv<T: Encoder>(&self, option: &Self::Opt, writer: &mut T) -> (r: ToDsvResult<
        (),
        Self::Error,
    >)
        ensures
            self.opt_dsv_written(*option, *old(writer), *final(writer), r),
    ;
}

/// A value that writes itself through an encoder.
pub trait ToDsv {
    /// The value's own error.
    type Error;

    /// Writes the value through `writer`.
    fn to_dsv<T: Encoder>(&self, writer: &mut T) -> ToDsvResult<(), Self::Error>;
}

impl<X> ToDsv for X where X: ToOptionedDsv, X::Opt: Default {
    type Error = X::Error;

    /// Writes the value as its default option steers.
    fn to_dsv<T: Encoder>(&self, writer: &mut T) -> (r: ToDsvResult<(), Self::Error>)
        ensures
            exists|option: X::Opt|
                call_ensures(X::Opt::default, (), option) && #[trigger] self.opt_dsv_written(
                    option,
                    *old(writer),
                    *final(writer),
                    r,
                ),
    {
        let option = X::Opt::default();
        self.to_opt_dsv(&option, writer)
    }
}

} // verus!
