//! Name classes as sets: what they must not hold, and whether two of them
//! can hold one name.

use vstd::prelude::*;
use crate::model::{NameClass, NameSet};
use crate::text::str_eq;

verus! {

/// A restriction that a schema does not meet.
#[derive(Clone, Copy, Debug)]
pub enum RelaxError {
    /// A pattern stands where it must not: its name and what it stands in.
    RestrictedPattern { span: crate::span::Span, pattern_name: &'static str, context: &'static str },
    XmlnsAttributeForbidden,
    XmlnsNamespaceForbidden,
    AnyNameInExcept,
    AnyNameInNsNameExcept,
    NsNameInNsNameExcept,
    OverlappingAttributes { span: crate::span::Span },
    OverlappingElements { span: crate::span::Span },
}

/// The namespace that no attribute may be in.
pub const XMLNS_NAMESPACE: &'static str = "http://www.w3.org/2000/xmlns";

/// The first of two faults.
pub open spec fn first_fault(a: Option<RelaxError>, b: Option<RelaxError>) -> Option<RelaxError> {
    match a {
        Some(e) => Some(e),
        None => b,
    }
}

/// What is wrong with the exception of an `anyName`: it must not hold an
/// `anyName`.
pub open spec fn anyname_except_fault(except: NameSet) -> Option<RelaxError>
    decreases except,
{
    match except {
        NameSet::AnyName { .. } => Some(RelaxError::AnyNameInExcept),
        NameSet::Alt { a, b } => first_fault(anyname_except_fault(*a), anyname_except_fault(*b)),
        NameSet::NsName { except, .. } => match except {
            Some(e) => anyname_except_fault(*e),
            None => None,
        },
        NameSet::Named { .. } => None,
    }
}

/// What is wrong with the exception of an `nsName`: it must hold neither an
/// `anyName` nor an `nsName`.
pub open spec fn nsname_except_fault(except: NameSet) -> Option<RelaxError>
    decreases except,
{
    match except {
        NameSet::AnyName { .. } => Some(RelaxError::AnyNameInNsNameExcept),
        NameSet::NsName { .. } => Some(RelaxError::NsNameInNsNameExcept),
        NameSet::Alt { a, b } => first_fault(nsname_except_fault(*a), nsname_except_fault(*b)),
        NameSet::Named { .. } => None,
    }
}

/// What is wrong with the exceptions in a name class.
pub open spec fn name_class_fault(nc: NameSet) -> Option<RelaxError>
    decreases nc,
{
    match nc {
        NameSet::AnyName { except } => match except {
            Some(e) => anyname_except_fault(*e),
            None => None,
        },
        NameSet::NsName { except, .. } => match except {
            Some(e) => nsname_except_fault(*e),
            None => None,
        },
        NameSet::Alt { a, b } => first_fault(name_class_fault(*a), name_class_fault(*b)),
        NameSet::Named { .. } => None,
    }
}

/// What is wrong with the name class of an attribute: it must not name
/// `xmlns`, nor anything in the namespace of namespace declarations.
pub open spec fn attribute_name_fault(nc: NameSet) -> Option<RelaxError>
    decreases nc,
{
    match nc {
        NameSet::Named { namespace_uri, name } => if namespace_uri.len() == 0 && name == "xmlns"@ {
            Some(RelaxError::XmlnsAttributeForbidden)
        } else if namespace_uri == XMLNS_NAMESPACE@ {
            Some(RelaxError::XmlnsNamespaceForbidden)
        } else {
            None
        },
        NameSet::NsName { namespace_uri, except } => if namespace_uri == XMLNS_NAMESPACE@ {
            Some(RelaxError::XmlnsNamespaceForbidden)
        } else {
            match except {
                Some(e) => attribute_name_fault(*e),
                None => None,
            }
        },
        NameSet::AnyName { except } => match except {
            Some(e) => attribute_name_fault(*e),
            None => None,
        },
        NameSet::Alt { a, b } => first_fault(attribute_name_fault(*a), attribute_name_fault(*b)),
    }
}

/// Whether a name class holds infinitely many names.
pub open spec fn infinite(nc: NameSet) -> bool
    decreases nc,
{
    match nc {
        NameSet::AnyName { .. } => true,
        NameSet::NsName { .. } => true,
        NameSet::Alt { a, b } => infinite(*a) || infinite(*b),
        NameSet::Named { .. } => false,
    }
}

/// `Ok` where there is no fault.
pub open spec fn verdict(fault: Option<RelaxError>) -> Result<(), RelaxError> {
    match fault {
        Some(e) => Err(e),
        None => Ok(()),
    }
}

/// Check name class restrictions (7.1.1): anyName/nsName except rules
pub fn check_name_class(name_class: &NameClass) -> (r: Result<(), RelaxError>)
    ensures
        r == verdict(name_class_fault(name_class@)),
    decreases name_class,
{
    match name_class {
        NameClass::AnyName { except } => {
            if let Some(except) = except {
                check_anyname_except(except)?;
            }
            Ok(())
        },
        NameClass::NsName { except, .. } => {
            if let Some(except) = except {
                check_nsname_except(except)?;
            }
            Ok(())
        },
        NameClass::Alt { a, b } => {
            check_name_class(a)?;
            check_name_class(b)?;
            Ok(())
        },
        NameClass::Named { .. } => Ok(()),
    }
}

pub fn check_attribute_name_class(name_class: &NameClass) -> (r: Result<(), RelaxError>)
    ensures
        r == verdict(attribute_name_fault(name_class@)),
    decreases name_class,
{
    match name_class {
        NameClass::Named { namespace_uri, name } => {
            if namespace_uri.as_str().is_empty() && str_eq(name.as_str(), "xmlns") {
                return Err(RelaxError::XmlnsAttributeForbidden);
            }
            if str_eq(namespace_uri.as_str(), XMLNS_NAMESPACE) {
                return Err(RelaxError::XmlnsNamespaceForbidden);
            }
            Ok(())
        },
        NameClass::NsName { namespace_uri, except } => {
            if str_eq(namespace_uri.as_str(), XMLNS_NAMESPACE) {
                return Err(RelaxError::XmlnsNamespaceForbidden);
            }
            if let Some(except) = except {
                check_attribute_name_class(except)?;
            }
            Ok(())
        },
        NameClass::AnyName { except } => {
            if let Some(except) = except {
                check_attribute_name_class(except)?;
            }
            Ok(())
        },
        NameClass::Alt { a, b } => {
            check_attribute_name_class(a)?;
            check_attribute_name_class(b)?;
            Ok(())
        },
    }
}

pub fn check_anyname_except(except: &NameClass) -> (r: Result<(), RelaxError>)
    ensures
        r == verdict(anyname_except_fault(except@)),
    decreases except,
{
    match except {
        NameClass::AnyName { .. } => Err(RelaxError::AnyNameInExcept),
        NameClass::Alt { a, b } => {
            check_anyname_except(a)?;
            check_anyname_except(b)?;
            Ok(())
        },
        NameClass::NsName { except, .. } => {
            if let Some(e) = except {
                check_anyname_except(e)?;
            }
            Ok(())
        },
        NameClass::Named { .. } => Ok(()),
    }
}

pub fn check_nsname_except(except: &NameClass) -> (r: Result<(), RelaxError>)
    ensures
        r == verdict(nsname_except_fault(except@)),
    decreases except,
{
    match except {
        NameClass::AnyName { .. } => Err(RelaxError::AnyNameInNsNameExcept),
        NameClass::NsName { .. } => Err(RelaxError::NsNameInNsNameExcept),
        NameClass::Alt { a, b } => {
            check_nsname_except(a)?;
            check_nsname_except(b)?;
            Ok(())
        },
        NameClass::Named { .. } => Ok(()),
    }
}

/// Check if a name class can match infinitely many names (anyName or nsName).
pub fn name_class_is_infinite(nc: &NameClass) -> (r: bool)
    ensures
        r == infinite(nc@),
    decreases nc,
{
    match nc {
        NameClass::AnyName { .. } => true,
        NameClass::NsName { .. } => true,
        NameClass::Alt { a, b } => name_class_is_infinite(a) || name_class_is_infinite(b),
        NameClass::Named { .. } => false,
    }
}

/// A name class without alternatives, as it is compared with others.
#[derive(Debug)]
pub enum CollectedNameClass {
    /// A specific name
    Named { namespace_uri: String, name: String },
    /// All names in a namespace, optionally with exceptions
    NsName { namespace_uri: String, except: Vec<CollectedNameClass> },
    /// All names, optionally with exceptions
    AnyName { except: Vec<CollectedNameClass> },
}

/// A collected name class over character sequences.
pub enum Collected {
    Named { namespace_uri: Seq<char>, name: Seq<char> },
    NsName { namespace_uri: Seq<char>, except: Seq<Collected> },
    AnyName { except: Seq<Collected> },
}

/// The collected name class over character sequences.
pub open spec fn collected(c: CollectedNameClass) -> Collected
    decreases c,
{
    match c {
        CollectedNameClass::Named { namespace_uri, name } => Collected::Named {
            namespace_uri: namespace_uri@,
            name: name@,
        },
        CollectedNameClass::NsName { namespace_uri, except } => Collected::NsName {
            namespace_uri: namespace_uri@,
            except: Seq::new(
                except@.len(),
                |i: int|
                    if 0 <= i < except@.len() {
                        collected(except@[i])
                    } else {
                        Collected::AnyName { except: Seq::empty() }
                    },
            ),
        },
        CollectedNameClass::AnyName { except } => Collected::AnyName {
            except: Seq::new(
                except@.len(),
                |i: int|
                    if 0 <= i < except@.len() {
                        collected(except@[i])
                    } else {
                        Collected::AnyName { except: Seq::empty() }
                    },
            ),
        },
    }
}

/// The collected name classes of a list over character sequences.
pub open spec fn all_collected(v: Seq<CollectedNameClass>) -> Seq<Collected> {
    Seq::new(v.len(), |i: int| collected(v[i]))
}

/// How general a collected name class is.
pub open spec fn generality(c: Collected) -> nat {
    match c {
        Collected::AnyName { .. } => 2,
        Collected::NsName { .. } => 1,
        Collected::Named { .. } => 0,
    }
}

/// The last of the most general name classes of a list.
pub open spec fn most_general(s: Seq<Collected>) -> Collected
    decreases s.len(),
{
    if s.len() == 0 {
        Collected::Named { namespace_uri: Seq::empty(), name: Seq::empty() }
    } else if s.len() == 1 {
        s[0]
    } else {
        let rest = most_general(s.drop_last());
        if generality(s.last()) >= generality(rest) {
            s.last()
        } else {
            rest
        }
    }
}

/// The name classes without alternatives that a name class is made of.
pub open spec fn entries(nc: NameSet) -> Seq<Collected>
    decreases nc, 1nat,
{
    match nc {
        NameSet::Alt { a, b } => entries(*a) + entries(*b),
        _ => seq![converted(nc)],
    }
}

/// A name class as a collected one; of alternatives the most general.
pub open spec fn converted(nc: NameSet) -> Collected
    decreases nc, 0nat,
{
    match nc {
        NameSet::Named { namespace_uri, name } => Collected::Named { namespace_uri, name },
        NameSet::NsName { namespace_uri, except } => Collected::NsName {
            namespace_uri,
            except: match except {
                Some(e) => entries(*e),
                None => Seq::empty(),
            },
        },
        NameSet::AnyName { except } => Collected::AnyName {
            except: match except {
                Some(e) => entries(*e),
                None => Seq::empty(),
            },
        },
        NameSet::Alt { a, b } => most_general(entries(*a) + entries(*b)),
    }
}

/// Whether `except` names the name itself.
pub open spec fn names_it(except: Seq<Collected>, namespace_uri: Seq<char>, name: Seq<char>) -> bool {
    exists|i: int|
        0 <= i < except.len() && (#[trigger] except[i]) == (Collected::Named {
            namespace_uri,
            name,
        })
}

/// Whether one of `excludes` holds the name.
pub open spec fn excluded(namespace_uri: Seq<char>, name: Seq<char>, excludes: Seq<Collected>) -> bool
    decreases excludes, 1nat,
{
    exists|i: int|
        0 <= i < excludes.len() && excludes_it(namespace_uri, name, #[trigger] excludes[i])
}

/// Whether `exc` holds the name: it is the name, or its namespace without
/// the name itself, or any name but what its exceptions hold.
pub open spec fn excludes_it(namespace_uri: Seq<char>, name: Seq<char>, exc: Collected) -> bool
    decreases exc, 0nat,
{
    match exc {
        Collected::Named { namespace_uri: ens, name: en } => ens == namespace_uri && en == name,
        Collected::NsName { namespace_uri: ns, except } => ns == namespace_uri && !names_it(
            except,
            namespace_uri,
            name,
        ),
        Collected::AnyName { except } => !excluded(namespace_uri, name, except),
    }
}

/// Whether two collected name classes could match the same name.
pub open spec fn overlap(a: Collected, b: Collected) -> bool {
    match (a, b) {
        (
            Collected::Named { namespace_uri: ns1, name: n1 },
            Collected::Named { namespace_uri: ns2, name: n2 },
        ) => ns1 == ns2 && n1 == n2,
        (Collected::Named { namespace_uri, name }, Collected::NsName { namespace_uri: ns, except }) => {
            namespace_uri == ns && !names_it(except, namespace_uri, name)
        },
        (Collected::NsName { namespace_uri: ns, except }, Collected::Named { namespace_uri, name }) => {
            namespace_uri == ns && !names_it(except, namespace_uri, name)
        },
        (Collected::Named { namespace_uri, name }, Collected::AnyName { except }) => !excluded(
            namespace_uri,
            name,
            except,
        ),
        (Collected::AnyName { except }, Collected::Named { namespace_uri, name }) => !excluded(
            namespace_uri,
            name,
            except,
        ),
        (
            Collected::NsName { namespace_uri: ns1, .. },
            Collected::NsName { namespace_uri: ns2, .. },
        ) => ns1 == ns2,
        _ => true,
    }
}

pub proof fn lemma_collected_except(c: CollectedNameClass)
    ensures
        c matches CollectedNameClass::NsName { except, .. } ==> collected(c)->NsName_except
            == all_collected(except@),
        c matches CollectedNameClass::AnyName { except } ==> collected(c)->AnyName_except
            == all_collected(except@),
{
    match c {
        CollectedNameClass::NsName { except, .. } => {
            assert(collected(c)->NsName_except =~= all_collected(except@));
        },
        CollectedNameClass::AnyName { except } => {
            assert(collected(c)->AnyName_except =~= all_collected(except@));
        },
        _ => {},
    }
}

fn generality_of(c: &CollectedNameClass) -> (r: u8)
    ensures
        r == generality(collected(*c)),
{
    match c {
        CollectedNameClass::AnyName { .. } => 2,
        CollectedNameClass::NsName { .. } => 1,
        CollectedNameClass::Named { .. } => 0,
    }
}

/// The last of the most general name classes of `entries`.
fn take_most_general(entries: Vec<CollectedNameClass>) -> (r: CollectedNameClass)
    ensures
        collected(r) == most_general(all_collected(entries@)),
{
    let mut entries = entries;
    let ghost all = all_collected(entries@);
    if entries.len() == 0 {
        return CollectedNameClass::Named { namespace_uri: String::new(), name: String::new() };
    }
    let mut best: usize = 0;
    let mut i: usize = 1;
    assert(all.take(1) =~= seq![all[0]]);
    while i < entries.len()
        invariant
            1 <= i <= entries.len(),
            best < i,
            all == all_collected(entries@),
            all[best as int] == most_general(all.take(i as int)),
        decreases entries.len() - i,
    {
        proof {
            assert(all.take(i + 1).drop_last() =~= all.take(i as int));
            assert(all.take(i + 1).last() == all[i as int]);
        }
        if generality_of(&entries[i]) >= generality_of(&entries[best]) {
            best = i;
        }
        i += 1;
    }
    assert(all.take(all.len() as int) =~= all);
    entries.remove(best)
}

/// Expand a NameClass into one or more CollectedNameClass entries.
/// Alt is expanded into separate entries so each can be checked independently.
pub fn collect_name_class_entries(nc: &NameClass, out: &mut Vec<CollectedNameClass>)
    ensures
        all_collected(final(out)@) == all_collected(old(out)@) + entries(nc@),
    decreases nc, 1nat,
{
    match nc {
        NameClass::Alt { a, b } => {
            collect_name_class_entries(a, out);
            collect_name_class_entries(b, out);
            assert(all_collected(out@) =~= all_collected(old(out)@) + (entries(a@) + entries(b@)));
        },
        _ => {
            let c = convert_name_class(nc);
            out.push(c);
            assert(all_collected(out@) =~= all_collected(old(out)@) + seq![converted(nc@)]);
        },
    }
}

pub fn convert_name_class(nc: &NameClass) -> (r: CollectedNameClass)
    ensures
        collected(r) == converted(nc@),
    decreases nc, 0nat,
{
    match nc {
        NameClass::Named { namespace_uri, name } => CollectedNameClass::Named {
            namespace_uri: namespace_uri.clone(),
            name: name.clone(),
        },
        NameClass::NsName { namespace_uri, except } => {
            // Expand Alt in except clause to preserve all alternatives
            let mut found: Vec<CollectedNameClass> = Vec::new();
            assert(all_collected(found@) =~= Seq::empty());
            if let Some(e) = except {
                collect_name_class_entries(e, &mut found);
            }
            let r = CollectedNameClass::NsName { namespace_uri: namespace_uri.clone(), except: found };
            proof {
                lemma_collected_except(r);
                assert(Seq::<Collected>::empty() + entries(except->0@) =~= entries(except->0@));
            }
            r
        },
        NameClass::AnyName { except } => {
            let mut found: Vec<CollectedNameClass> = Vec::new();
            assert(all_collected(found@) =~= Seq::empty());
            if let Some(e) = except {
                collect_name_class_entries(e, &mut found);
            }
            let r = CollectedNameClass::AnyName { except: found };
            proof {
                lemma_collected_except(r);
                assert(Seq::<Collected>::empty() + entries(except->0@) =~= entries(except->0@));
            }
            r
        },
        NameClass::Alt { a, b } => {
            // Of alternatives, the most general one stands for all.
            let mut found: Vec<CollectedNameClass> = Vec::new();
            assert(all_collected(found@) =~= Seq::empty());
            collect_name_class_entries(a, &mut found);
            collect_name_class_entries(b, &mut found);
            assert(all_collected(found@) =~= entries(a@) + entries(b@));
            take_most_general(found)
        },
    }
}

/// Whether one of `except` is the name itself.
fn names_the_name(except: &Vec<CollectedNameClass>, namespace_uri: &str, name: &str) -> (r: bool)
    ensures
        r == names_it(all_collected(except@), namespace_uri@, name@),
{
    let mut i: usize = 0;
    while i < except.len()
        invariant
            i <= except.len(),
            forall|k: int|
                0 <= k < i ==> (#[trigger] all_collected(except@)[k]) != (Collected::Named {
                    namespace_uri: namespace_uri@,
                    name: name@,
                }),
        decreases except.len() - i,
    {
        let found = match &except[i] {
            CollectedNameClass::Named { namespace_uri: ens, name: en } => str_eq(
                ens.as_str(),
                namespace_uri,
            ) && str_eq(en.as_str(), name),
            _ => false,
        };
        assert(all_collected(except@)[i as int] == collected(except@[i as int]));
        if found {
            return true;
        }
        i += 1;
    }
    false
}

pub fn is_name_excluded_by(namespace_uri: &str, name: &str, excludes: &Vec<CollectedNameClass>) -> (r:
    bool)
    ensures
        r == excluded(namespace_uri@, name@, all_collected(excludes@)),
    decreases excludes,
{
    let mut i: usize = 0;
    while i < excludes.len()
        invariant
            i <= excludes.len(),
            forall|k: int|
                0 <= k < i ==> !excludes_it(
                    namespace_uri@,
                    name@,
                    #[trigger] all_collected(excludes@)[k],
                ),
        decreases excludes.len() - i,
    {
        let exc = &excludes[i];
        proof {
            assert(all_collected(excludes@)[i as int] == collected(*exc));
            lemma_collected_except(*exc);
            assert(decreases_to!(*excludes => excludes[i as int]));
        }
        let hit = match exc {
            CollectedNameClass::Named { namespace_uri: ens, name: en } => str_eq(
                ens.as_str(),
                namespace_uri,
            ) && str_eq(en.as_str(), name),
            CollectedNameClass::NsName { namespace_uri: ns, except } => {
                // The nsName excludes this namespace, unless the name is
                // in the nsName's except list
                str_eq(ns.as_str(), namespace_uri) && !names_the_name(except, namespace_uri, name)
            },
            CollectedNameClass::AnyName { except } => {
                // AnyName excludes everything except what's in its except
                assert(decreases_to!(*exc => exc->AnyName_except));
                !is_name_excluded_by(namespace_uri, name, except)
            },
        };
        if hit {
            return true;
        }
        i += 1;
    }
    false
}

/// Check if two collected name classes could match the same name.
pub fn name_classes_overlap(a: &CollectedNameClass, b: &CollectedNameClass) -> (r: bool)
    ensures
        r == overlap(collected(*a), collected(*b)),
{
    proof {
        lemma_collected_except(*a);
        lemma_collected_except(*b);
    }
    match (a, b) {
        (
            CollectedNameClass::Named { namespace_uri: ns1, name: n1 },
            CollectedNameClass::Named { namespace_uri: ns2, name: n2 },
        ) => str_eq(ns1.as_str(), ns2.as_str()) && str_eq(n1.as_str(), n2.as_str()),
        (
            CollectedNameClass::Named { namespace_uri, name },
            CollectedNameClass::NsName { namespace_uri: ns, except },
        ) => {
            if !str_eq(namespace_uri.as_str(), ns.as_str()) {
                return false;
            }
            // Named is in the namespace -- check it's not excluded
            !names_the_name(except, namespace_uri.as_str(), name.as_str())
        },
        (
            CollectedNameClass::NsName { namespace_uri: ns, except },
            CollectedNameClass::Named { namespace_uri, name },
        ) => {
            if !str_eq(namespace_uri.as_str(), ns.as_str()) {
                return false;
            }
            !names_the_name(except, namespace_uri.as_str(), name.as_str())
        },
        (CollectedNameClass::Named { namespace_uri, name }, CollectedNameClass::AnyName { except }) => {
            // AnyName matches everything unless excluded
            !is_name_excluded_by(namespace_uri.as_str(), name.as_str(), except)
        },
        (CollectedNameClass::AnyName { except }, CollectedNameClass::Named { namespace_uri, name }) => {
            !is_name_excluded_by(namespace_uri.as_str(), name.as_str(), except)
        },
        (
            CollectedNameClass::NsName { namespace_uri: ns1, .. },
            CollectedNameClass::NsName { namespace_uri: ns2, .. },
        ) => {
            // Two nsName patterns in the same namespace always overlap
            // (unless their excepts cover each other, which is complex to check)
            str_eq(ns1.as_str(), ns2.as_str())
        },
        (CollectedNameClass::AnyName { .. }, CollectedNameClass::NsName { .. }) => true,
        (CollectedNameClass::NsName { .. }, CollectedNameClass::AnyName { .. }) => true,
        (CollectedNameClass::AnyName { .. }, CollectedNameClass::AnyName { .. }) => {
            // Two anyName patterns always overlap
            true
        },
    }
}

} // verus!
