//! How good a recording sounds, as far as its format tells.
use vstd::prelude::*;

verus! {

/// Grades from the one that nothing is known of to the best.
#[derive(Debug, Clone, Copy, PartialEq, Eq, Structural)]
pub enum QualityGrade {
    Unknown,
    Lossy,
    CD,
    HiRes,
    DSD,
}

impl QualityGrade {
    /// The place of the grade among the grades, the higher the better.
    pub open spec fn level(self) -> int {
        match self {
            QualityGrade::Unknown => 0,
            QualityGrade::Lossy => 1,
            QualityGrade::CD => 2,
            QualityGrade::HiRes => 3,
            QualityGrade::DSD => 4,
        }
    }

    /// The place of the grade among the grades as a number.
    pub fn as_level(self) -> (r: u8)
        ensures
            r == self.level(),
    {
        match self {
            QualityGrade::Unknown => 0,
            QualityGrade::Lossy => 1,
            QualityGrade::CD => 2,
            QualityGrade::HiRes => 3,
            QualityGrade::DSD => 4,
        }
    }

    /// Whether this grade is better than `other`.
    pub fn better_than(self, other: QualityGrade) -> (r: bool)
        ensures
            r == (self.level() > other.level()),
    {
        self.as_level() > other.as_level()
    }
}

impl Default for QualityGrade {
    fn default() -> (r: Self)
        ensures
            r == QualityGrade::Unknown,
    {
        QualityGrade::Unknown
    }
}

/// Two grades on the same level are the same grade.
pub proof fn law_levels_are_distinct(a: QualityGrade, b: QualityGrade)
    requires
        a.level() == b.level(),
    ensures
        a == b,
{
}

/// DSD is better than high resolution, that better than a CD, that better than what is lossy, and anything
/// better than what nothing is known of. No grade is better than itself.
pub proof fn law_grades_are_ranked(a: QualityGrade, b: QualityGrade, r: bool)
    requires
        call_ensures(QualityGrade::better_than, (a, b), r),
    ensures
        r <==> {
            ||| a == QualityGrade::DSD && b != QualityGrade::DSD
            ||| a == QualityGrade::HiRes && (b == QualityGrade::CD || b == QualityGrade::Lossy || b
                == QualityGrade::Unknown)
            ||| a == QualityGrade::CD && (b == QualityGrade::Lossy || b == QualityGrade::Unknown)
            ||| a == QualityGrade::Lossy && b == QualityGrade::Unknown
        },
        r <==> a.level() > b.level(),
{
}

/// Grades are numbered from the unknown one up to the best.
pub proof fn law_grades_are_numbered(grade: QualityGrade, r: u8)
    requires
        call_ensures(QualityGrade::as_level, (grade,), r),
    ensures
        grade == QualityGrade::Unknown ==> r == 0,
        grade == QualityGrade::Lossy ==> r == 1,
        grade == QualityGrade::CD ==> r == 2,
        grade == QualityGrade::HiRes ==> r == 3,
        grade == QualityGrade::DSD ==> r == 4,
{
}

}
