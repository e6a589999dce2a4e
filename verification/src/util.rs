//! Helpers for reading a declaration's attributes.

use vstd::prelude::*;
use crate::context::{Context, ErrorKind, SyntaxError};
use crate::syntax::{AttrBody, Attribute, Meta, Path, Span};

verus! {

/// The declaration error of kind `msg` at the place `obj`.
pub open spec fn spec_into_syn_error(obj: Span, msg: ErrorKind) -> SyntaxError {
    SyntaxError { span: obj, kind: msg }
}

/// The declaration error of kind `msg` at the place `obj`.
#[verifier::when_used_as_spec(spec_into_syn_error)]
pub fn into_syn_error(obj: Span, msg: ErrorKind) -> (r: SyntaxError)
    ensures
        r == spec_into_syn_error(obj, msg),
{
    SyntaxError { span: obj, kind: msg }
}

/// What one attribute adds to the directives collected under the name
/// `ident`: nothing where it has another name, its directives where it is a
/// list of them, and an error where it is a malformed list or, if `is_strict`,
/// no list at all.
pub open spec fn attr_args(attr: Attribute, ident: Seq<char>, is_strict: bool) -> Result<
    Seq<Meta>,
    SyntaxError,
> {
    if !attr.path.spec_is_ident(ident) {
        Ok(Seq::empty())
    } else {
        match attr.body {
            AttrBody::List(Some(args)) => Ok(args@),
            AttrBody::List(None) => Err(
                spec_into_syn_error(attr.path.span, ErrorKind::MalformedList),
            ),
            _ => if is_strict {
                Err(spec_into_syn_error(attr.path.span, ErrorKind::NotStructuredList))
            } else {
                Ok(Seq::empty())
            },
        }
    }
}

/// The directives of the first `n` attributes under the name `ident`, in
/// order, or the error of the first attribute that has one.
pub open spec fn meta_args(attrs: Seq<Attribute>, ident: Seq<char>, is_strict: bool, n: int) -> Result<
    Seq<Meta>,
    SyntaxError,
>
    decreases n,
{
    if n <= 0 || n > attrs.len() {
        Ok(Seq::empty())
    } else {
        match meta_args(attrs, ident, is_strict, n - 1) {
            Err(e) => Err(e),
            Ok(before) => match attr_args(attrs[n - 1], ident, is_strict) {
                Err(e) => Err(e),
                Ok(args) => Ok(before + args),
            },
        }
    }
}

/// Once an attribute has an error, that error stays the result.
pub proof fn lemma_meta_args_error_stays(
    attrs: Seq<Attribute>,
    ident: Seq<char>,
    is_strict: bool,
    n: int,
    m: int,
)
    requires
        0 <= n <= m <= attrs.len(),
        meta_args(attrs, ident, is_strict, n) is Err,
    ensures
        meta_args(attrs, ident, is_strict, m) == meta_args(attrs, ident, is_strict, n),
    decreases m - n,
{
    if n < m {
        lemma_meta_args_error_stays(attrs, ident, is_strict, n, m - 1);
    }
}

/// What a list of borrowed directives holds.
pub open spec fn deref_metas(metas: Seq<&Meta>) -> Seq<Meta> {
    Seq::new(metas.len(), |i: int| *metas[i])
}

/// Collects the directives of all attributes named `ident`.
pub fn parse_meta_args_from_attrs<'a>(attrs: &'a Vec<Attribute>, ident: &str, is_strict: bool) -> (r:
    Result<Vec<&'a Meta>, SyntaxError>)
    ensures
        match meta_args(attrs@, ident@, is_strict, attrs@.len() as int) {
            Ok(metas) => r is Ok && deref_metas(r->Ok_0@) == metas,
            Err(e) => r == Err::<Vec<&Meta>, SyntaxError>(e),
        },
{
    let mut collected: Vec<&'a Meta> = Vec::new();
    let mut i: usize = 0;
    assert(deref_metas(collected@) =~= Seq::<Meta>::empty());
    while i < attrs.len()
        invariant
            i <= attrs.len(),
            meta_args(attrs@, ident@, is_strict, i as int) == Ok::<Seq<Meta>, SyntaxError>(
                deref_metas(collected@),
            ),
        decreases attrs.len() - i,
    {
        let attr = &attrs[i];
        if attr.path.is_ident(ident) {
            match &attr.body {
                AttrBody::List(Some(args)) => {
                    let ghost before = deref_metas(collected@);
                    let mut k: usize = 0;
                    while k < args.len()
                        invariant
                            k <= args.len(),
                            deref_metas(collected@) == before + args@.subrange(0, k as int),
                        decreases args.len() - k,
                    {
                        let ghost earlier = collected@;
                        collected.push(&args[k]);
                        assert(deref_metas(collected@) =~= deref_metas(earlier).push(args@[k as int]));
                        assert(args@.subrange(0, k as int + 1) =~= args@.subrange(0, k as int).push(
                            args@[k as int],
                        ));
                        k += 1;
                    }
                    assert(args@.subrange(0, k as int) =~= args@);
                },
                AttrBody::List(None) => {
                    proof {
                        lemma_meta_args_error_stays(
                            attrs@,
                            ident@,
                            is_strict,
                            i as int + 1,
                            attrs@.len() as int,
                        );
                    }
                    return Err(into_syn_error(attr.path.span, ErrorKind::MalformedList));
                },
                _ => {
                    if is_strict {
                        proof {
                            lemma_meta_args_error_stays(
                                attrs@,
                                ident@,
                                is_strict,
                                i as int + 1,
                                attrs@.len() as int,
                            );
                        }
                        return Err(into_syn_error(attr.path.span, ErrorKind::NotStructuredList));
                    }
                    assert(deref_metas(collected@) + Seq::<Meta>::empty() =~= deref_metas(
                        collected@,
                    ));
                },
            }
        } else {
            assert(deref_metas(collected@) + Seq::<Meta>::empty() =~= deref_metas(collected@));
        }
        i += 1;
    }
    Ok(collected)
}

/// Fills `option` with `value`, unless it is filled already: then the
/// declaration names the same thing twice, at the place `obj`.
pub fn set_option_or_err<T>(option: &mut Option<T>, obj: Span, value: T) -> (r: Result<
    (),
    SyntaxError,
>)
    ensures
        *old(option) is Some ==> r == Err::<(), SyntaxError>(
            spec_into_syn_error(obj, ErrorKind::DuplicateAttribute),
        ) && *final(option) == *old(option),
        *old(option) is None ==> r is Ok && *final(option) == Some(value),
{
    if option.is_some() {
        Err(into_syn_error(obj, ErrorKind::DuplicateAttribute))
    } else {
        *option = Some(value);
        Ok(())
    }
}

/// The single identifier that `path` consists of; a longer path is no
/// directive.
pub fn get_ident_or_err(path: &Path) -> (r: Result<&String, SyntaxError>)
    ensures
        r is Ok <==> path.is_single(),
        r is Ok ==> *r->Ok_0 == path.segments@[0],
        r is Err ==> r->Err_0 == spec_into_syn_error(path.span, ErrorKind::InvalidDirective),
{
    match path.get_ident() {
        Some(ident) => Ok(ident),
        None => Err(into_syn_error(path.span, ErrorKind::InvalidDirective)),
    }
}

/// Ends a failed expansion with the errors that were recorded.
pub(crate) fn collected<T>(context: Context) -> (r: Result<T, Vec<SyntaxError>>)
    requires
        context.errors().len() > 0,
    ensures
        r is Err,
        r->Err_0@ == context.errors(),
{
    match context.check() {
        Err(errors) => Err(errors),
        Ok(()) => Err(Vec::new()),
    }
}

} // verus!
